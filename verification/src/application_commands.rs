//! Application (bot) slash commands: their metadata and how a typed
//! `/command option:value ...` line becomes an interaction.
use crate::error::AppError;
use crate::ids::Id;
use crate::json::{
    json_bool, json_bool_value, json_float_from_text, json_float_value, json_i64, json_i64_value,
    json_string, json_string_value,
};
use crate::marker::{ApplicationMarker, ChannelMarker, GuildMarker};
use crate::numbers::{is_digit_run, parse_i64, parse_i64_chars};
use crate::text::{char_is_ascii_digit, decimal, decimal_string, range_eq_str, slice_chars, string_of};
use serde_json::Value;
use vstd::prelude::*;

verus! {

pub const APPLICATION_COMMAND_SUBCOMMAND_KIND: u64 = 1;

pub const APPLICATION_COMMAND_SUBCOMMAND_GROUP_KIND: u64 = 2;

pub const APPLICATION_COMMAND_STRING_KIND: u64 = 3;

pub const APPLICATION_COMMAND_INTEGER_KIND: u64 = 4;

pub const APPLICATION_COMMAND_BOOLEAN_KIND: u64 = 5;

pub const APPLICATION_COMMAND_USER_KIND: u64 = 6;

pub const APPLICATION_COMMAND_CHANNEL_KIND: u64 = 7;

pub const APPLICATION_COMMAND_ROLE_KIND: u64 = 8;

pub const APPLICATION_COMMAND_MENTIONABLE_KIND: u64 = 9;

pub const APPLICATION_COMMAND_NUMBER_KIND: u64 = 10;

pub const APPLICATION_COMMAND_ATTACHMENT_KIND: u64 = 11;

#[derive(Debug, PartialEq, Eq)]
pub struct ApplicationCommandInfo {
    pub id: Id<ApplicationMarker>,
    pub application_id: Id<ApplicationMarker>,
    pub version: String,
    pub name: String,
    pub application_name: Option<String>,
    pub description: String,
    pub options: Vec<ApplicationCommandOptionInfo>,
    pub raw: Value,
}

#[derive(Debug, PartialEq, Eq)]
pub struct ApplicationCommandOptionInfo {
    pub kind: u64,
    pub name: String,
    pub description: String,
    pub required: bool,
    pub autocomplete: bool,
    pub choices: Vec<ApplicationCommandChoiceInfo>,
    pub options: Vec<ApplicationCommandOptionInfo>,
}

#[derive(Debug, PartialEq, Eq)]
pub struct ApplicationCommandChoiceInfo {
    pub name: String,
    pub value: Value,
}

impl Clone for ApplicationCommandChoiceInfo {
    fn clone(&self) -> (r: Self)
        ensures
            r == *self,
    {
        ApplicationCommandChoiceInfo { name: self.name.clone(), value: self.value.clone() }
    }
}

#[derive(Debug, PartialEq, Eq)]
pub struct ApplicationCommandInteraction {
    pub guild_id: Option<Id<GuildMarker>>,
    pub channel_id: Id<ChannelMarker>,
    pub command: ApplicationCommandInfo,
    pub options: Vec<ApplicationCommandInteractionOption>,
}

#[derive(Clone, Debug, PartialEq, Eq)]
pub struct ApplicationCommandInvocation {
    pub guild_id: Option<Id<GuildMarker>>,
    pub channel_id: Id<ChannelMarker>,
    pub command_name: String,
    pub content: String,
}

#[derive(Debug, PartialEq, Eq)]
pub struct ApplicationCommandInteractionOption {
    pub kind: u64,
    pub name: String,
    pub value: Option<Value>,
    pub options: Vec<ApplicationCommandInteractionOption>,
}

/// Two options hold the same fields, their nested options alike, down to
/// `depth` levels of nesting.
pub open spec fn same_option_info_to(a: ApplicationCommandOptionInfo, b: ApplicationCommandOptionInfo, depth: nat) -> bool
    decreases depth,
{
    if depth == 0 {
        true
    } else {
        &&& a.kind == b.kind
        &&& a.name == b.name
        &&& a.description == b.description
        &&& a.required == b.required
        &&& a.autocomplete == b.autocomplete
        &&& a.choices@ == b.choices@
        &&& a.options@.len() == b.options@.len()
        &&& forall|i: int|
            0 <= i < a.options@.len() ==> same_option_info_to(
                #[trigger] a.options@[i],
                b.options@[i],
                (depth - 1) as nat,
            )
    }
}

/// Two options hold the same fields, their nested options alike at every
/// level.
pub open spec fn same_option_info(a: ApplicationCommandOptionInfo, b: ApplicationCommandOptionInfo) -> bool {
    forall|depth: nat| #[trigger] same_option_info_to(a, b, depth)
}

/// An option with the same fields as `source`, its nested options copied alike.
pub fn clone_option_info(source: &ApplicationCommandOptionInfo) -> (r: ApplicationCommandOptionInfo)
    ensures
        same_option_info(*source, r),
    decreases source,
{
    let choices = source.choices.clone();
    proof {
        assert(choices@ =~= source.choices@);
    }
    let options = clone_option_infos(&source.options);
    let r = ApplicationCommandOptionInfo {
        kind: source.kind,
        name: source.name.clone(),
        description: source.description.clone(),
        required: source.required,
        autocomplete: source.autocomplete,
        choices,
        options,
    };
    assert forall|depth: nat| #[trigger] same_option_info_to(*source, r, depth) by {
        if depth > 0 {
            assert forall|i: int| 0 <= i < source.options@.len() implies same_option_info_to(
                #[trigger] source.options@[i],
                r.options@[i],
                (depth - 1) as nat,
            ) by {
                assert(same_option_info(source.options@[i], r.options@[i]));
            }
        }
    }
    r
}

/// Copies of each option, in order.
pub fn clone_option_infos(source: &Vec<ApplicationCommandOptionInfo>) -> (r: Vec<
    ApplicationCommandOptionInfo,
>)
    ensures
        r@.len() == source@.len(),
        forall|i: int| 0 <= i < source@.len() ==> #[trigger] same_option_info(source@[i], r@[i]),
    decreases source,
{
    let mut out = Vec::new();
    let mut i: usize = 0;
    while i < source.len()
        invariant
            i <= source.len(),
            out@.len() == i,
            forall|k: int| 0 <= k < i ==> #[trigger] same_option_info(source@[k], out@[k]),
        decreases source.len() - i,
    {
        proof {
            assert(decreases_to!(source => source@[i as int]));
        }
        out.push(clone_option_info(&source[i]));
        i = i + 1;
    }
    out
}

impl Clone for ApplicationCommandOptionInfo {
    fn clone(&self) -> (r: Self)
        ensures
            same_option_info(*self, r),
    {
        clone_option_info(self)
    }
}

/// Two interaction options hold the same fields, their nested options
/// alike, down to `depth` levels of nesting.
pub open spec fn same_interaction_option_to(
    a: ApplicationCommandInteractionOption,
    b: ApplicationCommandInteractionOption,
    depth: nat,
) -> bool
    decreases depth,
{
    if depth == 0 {
        true
    } else {
        &&& a.kind == b.kind
        &&& a.name == b.name
        &&& a.value == b.value
        &&& a.options@.len() == b.options@.len()
        &&& forall|i: int|
            0 <= i < a.options@.len() ==> same_interaction_option_to(
                #[trigger] a.options@[i],
                b.options@[i],
                (depth - 1) as nat,
            )
    }
}

/// Two interaction options hold the same fields, their nested options alike
/// at every level.
pub open spec fn same_interaction_option(a: ApplicationCommandInteractionOption, b: ApplicationCommandInteractionOption) -> bool {
    forall|depth: nat| #[trigger] same_interaction_option_to(a, b, depth)
}

/// An interaction option with the same fields as `source`, nested options copied alike.
pub fn clone_interaction_option(source: &ApplicationCommandInteractionOption) -> (r:
    ApplicationCommandInteractionOption)
    ensures
        same_interaction_option(*source, r),
    decreases source,
{
    let options = clone_interaction_options(&source.options);
    let r = ApplicationCommandInteractionOption {
        kind: source.kind,
        name: source.name.clone(),
        value: match &source.value {
            Some(v) => Some(v.clone()),
            None => None,
        },
        options,
    };
    assert forall|depth: nat| #[trigger] same_interaction_option_to(*source, r, depth) by {
        if depth > 0 {
            assert forall|i: int| 0 <= i < source.options@.len() implies same_interaction_option_to(
                #[trigger] source.options@[i],
                r.options@[i],
                (depth - 1) as nat,
            ) by {
                assert(same_interaction_option(source.options@[i], r.options@[i]));
            }
        }
    }
    r
}

/// Copies of each interaction option, in order.
pub fn clone_interaction_options(source: &Vec<ApplicationCommandInteractionOption>) -> (r: Vec<
    ApplicationCommandInteractionOption,
>)
    ensures
        r@.len() == source@.len(),
        forall|i: int| 0 <= i < source@.len() ==> #[trigger] same_interaction_option(source@[i], r@[i]),
    decreases source,
{
    let mut out = Vec::new();
    let mut i: usize = 0;
    while i < source.len()
        invariant
            i <= source.len(),
            out@.len() == i,
            forall|k: int| 0 <= k < i ==> #[trigger] same_interaction_option(source@[k], out@[k]),
        decreases source.len() - i,
    {
        proof {
            assert(decreases_to!(source => source@[i as int]));
        }
        out.push(clone_interaction_option(&source[i]));
        i = i + 1;
    }
    out
}

impl Clone for ApplicationCommandInteractionOption {
    fn clone(&self) -> (r: Self)
        ensures
            same_interaction_option(*self, r),
    {
        clone_interaction_option(self)
    }
}

/// The fields of a command that an interaction sends back to Discord.
pub open spec fn same_command_identity(a: ApplicationCommandInfo, b: ApplicationCommandInfo) -> bool {
    &&& a.id == b.id
    &&& a.application_id == b.application_id
    &&& a.version@ == b.version@
    &&& a.name@ == b.name@
    &&& a.raw == b.raw
}

/// Two commands are the same command: the same identity, application
/// name and description, and options alike at every level.
pub open spec fn same_command(a: ApplicationCommandInfo, b: ApplicationCommandInfo) -> bool {
    &&& same_command_identity(a, b)
    &&& a.application_name == b.application_name
    &&& a.description == b.description
    &&& a.options@.len() == b.options@.len()
    &&& forall|i: int| 0 <= i < b.options@.len() ==> #[trigger] same_option_info(b.options@[i], a.options@[i])
}

impl Clone for ApplicationCommandInfo {
    fn clone(&self) -> (r: Self)
        ensures
            same_command(r, *self),
    {
        ApplicationCommandInfo {
            id: self.id,
            application_id: self.application_id,
            version: self.version.clone(),
            name: self.name.clone(),
            application_name: self.application_name.clone(),
            description: self.description.clone(),
            options: clone_option_infos(&self.options),
            raw: self.raw.clone(),
        }
    }
}

impl ApplicationCommandInfo {
    /// The same command without its raw JSON (which stays with the backend).
    pub fn without_raw(self) -> (r: Self)
        ensures
            r.id == self.id,
            r.application_id == self.application_id,
            r.version == self.version,
            r.name == self.name,
            r.application_name == self.application_name,
            r.description == self.description,
            r.options == self.options,
            r.raw == crate::json::json_null(),
    {
        let mut this = self;
        this.raw = crate::json::json_null_value();
        this
    }
}

/// Subcommands and subcommand groups structure a command; every other option
/// kind takes a value.
pub open spec fn is_structural_kind(kind: u64) -> bool {
    kind == APPLICATION_COMMAND_SUBCOMMAND_KIND || kind == APPLICATION_COMMAND_SUBCOMMAND_GROUP_KIND
}

pub fn is_structural_command_option(option: &ApplicationCommandOptionInfo) -> (r: bool)
    ensures
        r == is_structural_kind(option.kind),
{
    option.kind == APPLICATION_COMMAND_SUBCOMMAND_KIND || option.kind
        == APPLICATION_COMMAND_SUBCOMMAND_GROUP_KIND
}

/// A snowflake as typed: one or more ASCII digits.
pub open spec fn is_snowflake_text(s: Seq<char>) -> bool {
    is_digit_run(s)
}

pub fn is_snowflake(value: &Vec<char>) -> (r: bool)
    ensures
        r == is_snowflake_text(value@),
{
    if value.len() == 0 {
        return false;
    }
    let mut i: usize = 0;
    while i < value.len()
        invariant
            i <= value.len(),
            forall|j: int| 0 <= j < i ==> crate::text::is_ascii_digit(#[trigger] value@[j]),
        decreases value.len() - i,
    {
        if !char_is_ascii_digit(value[i]) {
            return false;
        }
        i = i + 1;
    }
    true
}

/// The text strictly between `prefix` and a final `>`.
pub open spec fn wrapped_inner(raw: Seq<char>, prefix: Seq<char>) -> Option<Seq<char>> {
    if raw.len() >= prefix.len() + 1 && raw.take(prefix.len() as int) == prefix && raw.last()
        == '>' {
        Some(raw.subrange(prefix.len() as int, raw.len() - 1))
    } else {
        None
    }
}

/// The id in a user mention `<@id>` or `<@!id>`.
pub open spec fn user_mention_id(raw: Seq<char>) -> Option<Seq<char>> {
    match wrapped_inner(raw, "<@"@) {
        Some(inner) => {
            let id = if inner.len() > 0 && inner[0] == '!' {
                inner.drop_first()
            } else {
                inner
            };
            if is_snowflake_text(id) {
                Some(id)
            } else {
                None
            }
        },
        None => None,
    }
}

/// The id in a `<prefix...>` mention, when it is a snowflake.
pub open spec fn wrapped_id(raw: Seq<char>, prefix: Seq<char>) -> Option<Seq<char>> {
    match wrapped_inner(raw, prefix) {
        Some(id) => if is_snowflake_text(id) {
            Some(id)
        } else {
            None
        },
        None => None,
    }
}

/// The snowflake an id-taking option accepts: a bare snowflake, or the
/// mention form of its kind (user `<@id>`/`<@!id>`, channel `<#id>`, role
/// `<@&id>`, mentionable either a user or a role mention).
pub open spec fn snowflake_value(kind: u64, raw: Seq<char>) -> Option<Seq<char>> {
    if is_snowflake_text(raw) {
        Some(raw)
    } else if kind == APPLICATION_COMMAND_USER_KIND {
        user_mention_id(raw)
    } else if kind == APPLICATION_COMMAND_CHANNEL_KIND {
        wrapped_id(raw, "<#"@)
    } else if kind == APPLICATION_COMMAND_ROLE_KIND {
        wrapped_id(raw, "<@&"@)
    } else if kind == APPLICATION_COMMAND_MENTIONABLE_KIND {
        match user_mention_id(raw) {
            Some(id) => Some(id),
            None => wrapped_id(raw, "<@&"@),
        }
    } else {
        None
    }
}

/// The words an option of boolean kind reads as true.
pub open spec fn is_true_word(raw: Seq<char>) -> bool {
    raw == "true"@ || raw == "yes"@ || raw == "1"@ || raw == "on"@
}

/// The words an option of boolean kind reads as false.
pub open spec fn is_false_word(raw: Seq<char>) -> bool {
    raw == "false"@ || raw == "no"@ || raw == "0"@ || raw == "off"@
}

/// The JSON value an option of `kind` sends for the typed text `raw`; `None`
/// when the text is not a valid value of that kind (attachments cannot be
/// typed at all).
pub open spec fn option_value(kind: u64, raw: Seq<char>) -> Option<Value> {
    if kind == APPLICATION_COMMAND_INTEGER_KIND {
        match parse_i64(raw) {
            Some(i) => Some(json_i64(i)),
            None => None,
        }
    } else if kind == APPLICATION_COMMAND_BOOLEAN_KIND {
        if is_true_word(raw) {
            Some(json_bool(true))
        } else if is_false_word(raw) {
            Some(json_bool(false))
        } else {
            None
        }
    } else if kind == APPLICATION_COMMAND_NUMBER_KIND {
        json_float_from_text(raw)
    } else if kind == APPLICATION_COMMAND_USER_KIND || kind == APPLICATION_COMMAND_CHANNEL_KIND
        || kind == APPLICATION_COMMAND_ROLE_KIND || kind == APPLICATION_COMMAND_MENTIONABLE_KIND {
        match snowflake_value(kind, raw) {
            Some(id) => Some(json_string(id)),
            None => None,
        }
    } else if kind == APPLICATION_COMMAND_ATTACHMENT_KIND {
        None
    } else {
        Some(json_string(raw))
    }
}

fn wrapped_inner_range(raw: &Vec<char>, prefix: &str) -> (r: Option<Vec<char>>)
    ensures
        r matches Some(v) ==> wrapped_inner(raw@, prefix@) == Some(v@),
        r is None ==> wrapped_inner(raw@, prefix@) is None,
{
    let p = crate::text::chars_of(prefix);
    if p.len() < raw.len() && range_eq_str(raw, 0, p.len(), prefix) && raw[raw.len() - 1] == '>' {
        proof {
            assert(raw@.subrange(0, p.len() as int) =~= raw@.take(p.len() as int));
        }
        Some(slice_chars(raw, p.len(), raw.len() - 1))
    } else {
        proof {
            if p.len() < raw.len() {
                assert(raw@.subrange(0, p.len() as int) =~= raw@.take(p.len() as int));
            }
        }
        None
    }
}

fn user_mention_id_chars(raw: &Vec<char>) -> (r: Option<Vec<char>>)
    ensures
        r matches Some(v) ==> user_mention_id(raw@) == Some(v@),
        r is None ==> user_mention_id(raw@) is None,
{
    match wrapped_inner_range(raw, "<@") {
        Some(inner) => {
            let id = if inner.len() > 0 && inner[0] == '!' {
                slice_chars(&inner, 1, inner.len())
            } else {
                inner
            };
            proof {
                if inner.len() > 0 && inner@[0] == '!' {
                    assert(id@ =~= inner@.drop_first());
                }
            }
            if is_snowflake(&id) {
                Some(id)
            } else {
                None
            }
        },
        None => None,
    }
}

fn wrapped_id_chars(raw: &Vec<char>, prefix: &str) -> (r: Option<Vec<char>>)
    ensures
        r matches Some(v) ==> wrapped_id(raw@, prefix@) == Some(v@),
        r is None ==> wrapped_id(raw@, prefix@) is None,
{
    match wrapped_inner_range(raw, prefix) {
        Some(id) => if is_snowflake(&id) {
            Some(id)
        } else {
            None
        },
        None => None,
    }
}

/// The snowflake an id-taking option reads from its typed text.
pub fn snowflake_option_value(kind: u64, raw: &Vec<char>) -> (r: Option<String>)
    ensures
        r matches Some(v) ==> snowflake_value(kind, raw@) == Some(v@),
        r is None ==> snowflake_value(kind, raw@) is None,
{
    if is_snowflake(raw) {
        return Some(string_of(raw));
    }
    let id = if kind == APPLICATION_COMMAND_USER_KIND {
        user_mention_id_chars(raw)
    } else if kind == APPLICATION_COMMAND_CHANNEL_KIND {
        wrapped_id_chars(raw, "<#")
    } else if kind == APPLICATION_COMMAND_ROLE_KIND {
        wrapped_id_chars(raw, "<@&")
    } else if kind == APPLICATION_COMMAND_MENTIONABLE_KIND {
        match user_mention_id_chars(raw) {
            Some(id) => Some(id),
            None => wrapped_id_chars(raw, "<@&"),
        }
    } else {
        None
    };
    match id {
        Some(id) => Some(string_of(&id)),
        None => None,
    }
}

fn whole_eq(raw: &Vec<char>, word: &str) -> (r: bool)
    ensures
        r == (raw@ == word@),
{
    let r = range_eq_str(raw, 0, raw.len(), word);
    proof {
        assert(raw@.subrange(0, raw@.len() as int) =~= raw@);
    }
    r
}

/// The JSON value an option sends for its (trimmed, non-empty) typed text.
pub fn application_command_option_value(option: &ApplicationCommandOptionInfo, raw: &Vec<char>) -> (r:
    Option<Value>)
    ensures
        r == option_value(option.kind, raw@),
{
    let kind = option.kind;
    if kind == APPLICATION_COMMAND_INTEGER_KIND {
        match parse_i64_chars(raw) {
            Some(i) => Some(json_i64_value(i)),
            None => None,
        }
    } else if kind == APPLICATION_COMMAND_BOOLEAN_KIND {
        if whole_eq(raw, "true") || whole_eq(raw, "yes") || whole_eq(raw, "1") || whole_eq(
            raw,
            "on",
        ) {
            Some(json_bool_value(true))
        } else if whole_eq(raw, "false") || whole_eq(raw, "no") || whole_eq(raw, "0") || whole_eq(
            raw,
            "off",
        ) {
            Some(json_bool_value(false))
        } else {
            None
        }
    } else if kind == APPLICATION_COMMAND_NUMBER_KIND {
        let text = string_of(raw);
        json_float_value(text.as_str())
    } else if kind == APPLICATION_COMMAND_USER_KIND || kind == APPLICATION_COMMAND_CHANNEL_KIND
        || kind == APPLICATION_COMMAND_ROLE_KIND || kind == APPLICATION_COMMAND_MENTIONABLE_KIND {
        match snowflake_option_value(kind, raw) {
            Some(id) => Some(json_string_value(id)),
            None => None,
        }
    } else if kind == APPLICATION_COMMAND_ATTACHMENT_KIND {
        None
    } else {
        Some(json_string_value(string_of(raw)))
    }
}

/// Which options a lookup by name considers.
#[derive(Clone, Copy, Debug, PartialEq, Eq)]
pub enum OptionSelector {
    /// Options that take a value.
    Leaf,
    /// Subcommands.
    Subcommand,
    /// Subcommand groups.
    Group,
}

pub open spec fn selects(option: ApplicationCommandOptionInfo, sel: OptionSelector) -> bool {
    match sel {
        OptionSelector::Leaf => !is_structural_kind(option.kind),
        OptionSelector::Subcommand => option.kind == APPLICATION_COMMAND_SUBCOMMAND_KIND,
        OptionSelector::Group => option.kind == APPLICATION_COMMAND_SUBCOMMAND_GROUP_KIND,
    }
}

pub open spec fn fits(option: ApplicationCommandOptionInfo, sel: OptionSelector, name: Seq<char>) -> bool {
    selects(option, sel) && option.name@ == name
}

pub open spec fn is_first_fit(
    options: Seq<ApplicationCommandOptionInfo>,
    sel: OptionSelector,
    name: Seq<char>,
    i: int,
) -> bool {
    &&& 0 <= i < options.len()
    &&& fits(options[i], sel, name)
    &&& forall|j: int| 0 <= j < i ==> !fits(#[trigger] options[j], sel, name)
}

/// Position of the first option of the selected sort named `name`.
pub open spec fn first_fit(
    options: Seq<ApplicationCommandOptionInfo>,
    sel: OptionSelector,
    name: Seq<char>,
) -> Option<int> {
    if exists|i: int| is_first_fit(options, sel, name, i) {
        Some(choose|i: int| is_first_fit(options, sel, name, i))
    } else {
        None
    }
}

proof fn lemma_first_fit_is(
    options: Seq<ApplicationCommandOptionInfo>,
    sel: OptionSelector,
    name: Seq<char>,
    i: int,
)
    requires
        is_first_fit(options, sel, name, i),
    ensures
        first_fit(options, sel, name) == Some(i),
{
    let k = choose|k: int| is_first_fit(options, sel, name, k);
    assert(is_first_fit(options, sel, name, k));
    if k < i {
        assert(!fits(options[k], sel, name));
    } else if i < k {
        assert(!fits(options[i], sel, name));
    }
}

proof fn lemma_first_fit_none(options: Seq<ApplicationCommandOptionInfo>, sel: OptionSelector, name: Seq<char>)
    requires
        forall|j: int| 0 <= j < options.len() ==> !fits(#[trigger] options[j], sel, name),
    ensures
        first_fit(options, sel, name) is None,
{
}

fn name_is(option: &ApplicationCommandOptionInfo, name: &Vec<char>) -> (r: bool)
    ensures
        r == (option.name@ == name@),
{
    let chars = crate::text::chars_of(option.name.as_str());
    crate::text::chars_eq(&chars, name)
}

fn selects_exec(option: &ApplicationCommandOptionInfo, sel: OptionSelector) -> (r: bool)
    ensures
        r == selects(*option, sel),
{
    match sel {
        OptionSelector::Leaf => !is_structural_command_option(option),
        OptionSelector::Subcommand => option.kind == APPLICATION_COMMAND_SUBCOMMAND_KIND,
        OptionSelector::Group => option.kind == APPLICATION_COMMAND_SUBCOMMAND_GROUP_KIND,
    }
}

/// Finds the first option of the selected sort named `name`.
pub fn find_option(options: &Vec<ApplicationCommandOptionInfo>, sel: OptionSelector, name: &Vec<char>) -> (r:
    Option<usize>)
    ensures
        r matches Some(i) ==> first_fit(options@, sel, name@) == Some(i as int),
        r is None ==> first_fit(options@, sel, name@) is None,
{
    let mut i: usize = 0;
    while i < options.len()
        invariant
            i <= options.len(),
            forall|j: int| 0 <= j < i ==> !fits(#[trigger] options@[j], sel, name@),
        decreases options.len() - i,
    {
        if selects_exec(&options[i], sel) && name_is(&options[i], name) {
            proof {
                lemma_first_fit_is(options@, sel, name@, i as int);
            }
            return Some(i);
        }
        i = i + 1;
    }
    proof {
        lemma_first_fit_none(options@, sel, name@);
    }
    None
}

/// Position of the first `:` in a word.
pub open spec fn first_colon(s: Seq<char>) -> Option<int> {
    if exists|k: int| 0 <= k < s.len() && s[k] == ':' && forall|j: int| 0 <= j < k ==> s[j] != ':' {
        Some(choose|k: int| 0 <= k < s.len() && s[k] == ':' && forall|j: int| 0 <= j < k ==> s[j] != ':')
    } else {
        None
    }
}

/// `str::split_once(':')`.
pub open spec fn colon_split(s: Seq<char>) -> Option<(Seq<char>, Seq<char>)> {
    match first_colon(s) {
        Some(k) => Some((s.take(k), s.skip(k + 1))),
        None => None,
    }
}

proof fn lemma_first_colon_is(s: Seq<char>, k: int)
    requires
        0 <= k < s.len(),
        s[k] == ':',
        forall|j: int| 0 <= j < k ==> s[j] != ':',
    ensures
        first_colon(s) == Some(k),
{
    let c = choose|c: int| 0 <= c < s.len() && s[c] == ':' && forall|j: int| 0 <= j < c ==> s[j] != ':';
    assert(0 <= c < s.len() && s[c] == ':' && forall|j: int| 0 <= j < c ==> s[j] != ':');
    if c < k {
        assert(s[c] != ':');
    } else if k < c {
        assert(s[k] != ':');
    }
}

/// Splits a word at its first `:`.
pub fn split_colon(part: &Vec<char>) -> (r: Option<(Vec<char>, Vec<char>)>)
    ensures
        r matches Some((a, b)) ==> colon_split(part@) == Some((a@, b@)),
        r is None ==> colon_split(part@) is None,
{
    match crate::text::find_char(part, 0, ':') {
        Some(k) => {
            proof {
                lemma_first_colon_is(part@, k as int);
            }
            let a = slice_chars(part, 0, k);
            let b = slice_chars(part, k + 1, part.len());
            proof {
                assert(a@ =~= part@.take(k as int));
                assert(b@ =~= part@.skip(k + 1));
            }
            Some((a, b))
        },
        None => None,
    }
}

/// One parsed option that carries a value.
pub struct LeafModel {
    pub kind: u64,
    pub name: Seq<char>,
    pub value: Value,
}

/// Progress through the words of an option list: the options read so far,
/// and the option still collecting words with the text it has so far.
pub struct LeafState {
    pub ok: bool,
    pub parsed: Seq<LeafModel>,
    pub current: Option<(int, Seq<char>)>,
}

pub open spec fn failed_state() -> LeafState {
    LeafState { ok: false, parsed: seq![], current: None }
}

pub open spec fn initial_state() -> LeafState {
    LeafState { ok: true, parsed: seq![], current: None }
}

/// `value` with `part` added, a space between them when `value` is not empty.
pub open spec fn accumulate(value: Seq<char>, part: Seq<char>) -> Seq<char> {
    if value.len() == 0 {
        part
    } else {
        value + seq![' '] + part
    }
}

/// Ends the option being collected: its trimmed text must be non-empty and a
/// valid value of its kind.
pub open spec fn flush(options: Seq<ApplicationCommandOptionInfo>, st: LeafState) -> LeafState {
    if !st.ok {
        st
    } else {
        match st.current {
            None => st,
            Some((i, v)) => {
                let t = crate::text::trim(v);
                if t.len() == 0 {
                    failed_state()
                } else {
                    match option_value(options[i].kind, t) {
                        None => failed_state(),
                        Some(value) => LeafState {
                            ok: true,
                            parsed: st.parsed.push(
                                LeafModel { kind: options[i].kind, name: options[i].name@, value },
                            ),
                            current: None,
                        },
                    }
                }
            },
        }
    }
}

/// Some option takes a value.
pub open spec fn has_leaf(options: Seq<ApplicationCommandOptionInfo>) -> bool {
    exists|i: int| 0 <= i < options.len() && !is_structural_kind(#[trigger] options[i].kind)
}

/// The option a word `name:...` starts, with the text after the colon.
pub open spec fn named_start(options: Seq<ApplicationCommandOptionInfo>, part: Seq<char>) -> Option<
    (int, Seq<char>),
> {
    match colon_split(part) {
        Some((name, raw)) => match first_fit(options, OptionSelector::Leaf, name) {
            Some(i) => Some((i, raw)),
            None => None,
        },
        None => None,
    }
}

/// Reads one word: `name:value` for a value-taking option starts that option;
/// any other word continues the option being collected, and is an error when
/// none is (unless the command takes no values at all).
pub open spec fn leaf_step(options: Seq<ApplicationCommandOptionInfo>, st: LeafState, part: Seq<char>) -> LeafState {
    if !st.ok {
        st
    } else {
        match named_start(options, part) {
            Some((i, raw)) => {
                let f = flush(options, st);
                if !f.ok {
                    f
                } else {
                    LeafState { ok: true, parsed: f.parsed, current: Some((i, raw)) }
                }
            },
            None => match st.current {
                Some((i, v)) => LeafState {
                    ok: true,
                    parsed: st.parsed,
                    current: Some((i, accumulate(v, part))),
                },
                None => if has_leaf(options) {
                    failed_state()
                } else {
                    st
                },
            },
        }
    }
}

pub open spec fn leaf_fold(options: Seq<ApplicationCommandOptionInfo>, parts: Seq<Seq<char>>) -> LeafState
    decreases parts.len(),
{
    if parts.len() == 0 {
        initial_state()
    } else {
        leaf_step(options, leaf_fold(options, parts.drop_last()), parts.last())
    }
}

/// Every required value-taking option was given.
pub open spec fn required_present(options: Seq<ApplicationCommandOptionInfo>, parsed: Seq<LeafModel>) -> bool {
    forall|i: int|
        0 <= i < options.len() && (#[trigger] options[i]).required && !is_structural_kind(
            options[i].kind,
        ) ==> exists|j: int| 0 <= j < parsed.len() && parsed[j].name == options[i].name@
}

/// The values a list of `name:value` words gives for an option list.
pub open spec fn parse_leaves(parts: Seq<Seq<char>>, options: Seq<ApplicationCommandOptionInfo>) -> Option<
    Seq<LeafModel>,
> {
    let st = flush(options, leaf_fold(options, parts));
    if st.ok && required_present(options, st.parsed) {
        Some(st.parsed)
    } else {
        None
    }
}

pub open spec fn leaf_matches(o: ApplicationCommandInteractionOption, l: LeafModel) -> bool {
    &&& o.kind == l.kind
    &&& o.name@ == l.name
    &&& o.value == Some(l.value)
    &&& o.options@.len() == 0
}

pub open spec fn leaves_match(os: Seq<ApplicationCommandInteractionOption>, ls: Seq<LeafModel>) -> bool {
    &&& os.len() == ls.len()
    &&& forall|i: int| 0 <= i < os.len() ==> leaf_matches(#[trigger] os[i], ls[i])
}

pub open spec fn current_matches(c: Option<(usize, Vec<char>)>, m: Option<(int, Seq<char>)>) -> bool {
    match (c, m) {
        (None, None) => true,
        (Some((i, v)), Some((j, w))) => i as int == j && v@ == w,
        _ => false,
    }
}

/// Ends the option being collected, adding it to `parsed`; `false` when its
/// text is blank or not a valid value.
fn push_leaf_application_command_option(
    options: &Vec<ApplicationCommandOptionInfo>,
    parsed: &mut Vec<ApplicationCommandInteractionOption>,
    current: Option<(usize, Vec<char>)>,
    Ghost(st): Ghost<LeafState>,
) -> (ok: bool)
    requires
        st.ok,
        leaves_match(old(parsed)@, st.parsed),
        current_matches(current, st.current),
        current matches Some((i, _)) ==> i < options@.len(),
    ensures
        ok == flush(options@, st).ok,
        ok ==> leaves_match(final(parsed)@, flush(options@, st).parsed),
        ok ==> flush(options@, st).current is None,
{
    match current {
        None => true,
        Some((i, value)) => {
            let t = crate::text::trim_chars(&value);
            if t.len() == 0 {
                return false;
            }
            match application_command_option_value(&options[i], &t) {
                None => false,
                Some(v) => {
                    let ghost before = parsed@;
                    parsed.push(
                        ApplicationCommandInteractionOption {
                            kind: options[i].kind,
                            name: options[i].name.clone(),
                            value: Some(v),
                            options: Vec::new(),
                        },
                    );
                    proof {
                        let f = flush(options@, st);
                        assert forall|k: int| 0 <= k < parsed@.len() implies leaf_matches(
                            #[trigger] parsed@[k],
                            f.parsed[k],
                        ) by {
                            if k < before.len() {
                                assert(parsed@[k] == before[k]);
                            }
                        }
                    }
                    true
                },
            }
        },
    }
}

fn has_leaf_option(options: &Vec<ApplicationCommandOptionInfo>) -> (r: bool)
    ensures
        r == has_leaf(options@),
{
    let mut i: usize = 0;
    while i < options.len()
        invariant
            i <= options.len(),
            forall|j: int| 0 <= j < i ==> is_structural_kind(#[trigger] options@[j].kind),
        decreases options.len() - i,
    {
        if !is_structural_command_option(&options[i]) {
            return true;
        }
        i = i + 1;
    }
    false
}

fn required_application_command_options_present(
    options: &Vec<ApplicationCommandOptionInfo>,
    parsed: &Vec<ApplicationCommandInteractionOption>,
    Ghost(ls): Ghost<Seq<LeafModel>>,
) -> (r: bool)
    requires
        leaves_match(parsed@, ls),
    ensures
        r == required_present(options@, ls),
{
    let mut i: usize = 0;
    while i < options.len()
        invariant
            i <= options.len(),
            leaves_match(parsed@, ls),
            forall|k: int|
                0 <= k < i && (#[trigger] options@[k]).required && !is_structural_kind(
                    options@[k].kind,
                ) ==> exists|j: int| 0 <= j < ls.len() && ls[j].name == options@[k].name@,
        decreases options.len() - i,
    {
        if options[i].required && !is_structural_command_option(&options[i]) {
            let mut found = false;
            let mut j: usize = 0;
            while j < parsed.len()
                invariant
                    j <= parsed.len(),
                    i < options.len(),
                    leaves_match(parsed@, ls),
                    !found ==> forall|m: int| 0 <= m < j ==> ls[m].name != options@[i as int].name@,
                    found ==> exists|m: int| 0 <= m < ls.len() && ls[m].name == options@[i as int].name@,
                decreases parsed.len() - j,
            {
                if parsed[j].name == options[i].name {
                    proof {
                        assert(leaf_matches(parsed@[j as int], ls[j as int]));
                    }
                    found = true;
                } else {
                    proof {
                        assert(leaf_matches(parsed@[j as int], ls[j as int]));
                    }
                }
                j = j + 1;
            }
            if !found {
                proof {
                    assert(!required_present(options@, ls)) by {
                        assert(options@[i as int].required);
                    }
                }
                return false;
            }
        }
        i = i + 1;
    }
    true
}

pub open spec fn parts_view(parts: Seq<Vec<char>>) -> Seq<Seq<char>> {
    parts.map_values(|p: Vec<char>| p@)
}

proof fn lemma_fold_stays_failed(
    options: Seq<ApplicationCommandOptionInfo>,
    parts: Seq<Seq<char>>,
    n: int,
)
    requires
        0 <= n <= parts.len(),
        !leaf_fold(options, parts.take(n)).ok,
    ensures
        !leaf_fold(options, parts).ok,
    decreases parts.len() - n,
{
    if n < parts.len() {
        assert(parts.take(n + 1).drop_last() =~= parts.take(n));
        lemma_fold_stays_failed(options, parts, n + 1);
    } else {
        assert(parts.take(n) =~= parts);
    }
}

/// Reads the `name:value` words `parts[from..]` against an option list.
pub fn parse_leaf_application_command_options(
    parts: &Vec<Vec<char>>,
    from: usize,
    options: &Vec<ApplicationCommandOptionInfo>,
) -> (r: Option<Vec<ApplicationCommandInteractionOption>>)
    requires
        from <= parts.len(),
    ensures
        ({
            let expected = parse_leaves(parts_view(parts@).skip(from as int), options@);
            &&& r is None <==> expected is None
            &&& r matches Some(os) ==> leaves_match(os@, expected->0)
        }),
{
    let ghost pv = parts_view(parts@).skip(from as int);
    let mut parsed: Vec<ApplicationCommandInteractionOption> = Vec::new();
    let mut current: Option<(usize, Vec<char>)> = None;
    let leafy = has_leaf_option(options);
    let mut k = from;
    proof {
        assert(pv.take(0) =~= Seq::<Seq<char>>::empty());
    }
    while k < parts.len()
        invariant
            from <= k <= parts.len(),
            pv == parts_view(parts@).skip(from as int),
            leafy == has_leaf(options@),
            leaf_fold(options@, pv.take(k - from)).ok,
            leaves_match(parsed@, leaf_fold(options@, pv.take(k - from)).parsed),
            current_matches(current, leaf_fold(options@, pv.take(k - from)).current),
            current matches Some((i, _)) ==> i < options@.len(),
        decreases parts.len() - k,
    {
        let ghost st = leaf_fold(options@, pv.take(k - from));
        let ghost part = pv[k - from];
        proof {
            assert(pv.take(k + 1 - from).drop_last() =~= pv.take(k - from));
            assert(part == parts@[k as int]@);
        }
        let part_ref = &parts[k];
        let named: Option<(usize, Vec<char>)> = match split_colon(part_ref) {
            Some((name, raw)) => match find_option(options, OptionSelector::Leaf, &name) {
                Some(i) => Some((i, raw)),
                None => None,
            },
            None => None,
        };
        proof {
            if named is Some {
                assert(named_start(options@, part) == Some(
                    (named.unwrap().0 as int, named.unwrap().1@),
                ));
            } else {
                assert(named_start(options@, part) is None);
            }
        }
        match named {
            Some((i, raw)) => {
                let prev = current;
                current = None;
                if !push_leaf_application_command_option(options, &mut parsed, prev, Ghost(st)) {
                    proof {
                        lemma_fold_stays_failed(options@, pv, k + 1 - from);
                    }
                    return None;
                }
                current = Some((i, raw));
            },
            None => {
                match current {
                    Some((i, value)) => {
                        let mut value = value;
                        if value.len() != 0 {
                            value.push(' ');
                        }
                        let mut j: usize = 0;
                        let ghost base = value@;
                        while j < part_ref.len()
                            invariant
                                j <= part_ref.len(),
                                value@ == base + part_ref@.take(j as int),
                            decreases part_ref.len() - j,
                        {
                            value.push(part_ref[j]);
                            j = j + 1;
                            proof {
                                assert(part_ref@.take(j as int) =~= part_ref@.take(j - 1).push(
                                    part_ref@[j - 1],
                                ));
                            }
                        }
                        proof {
                            assert(part_ref@.take(j as int) =~= part_ref@);
                            assert(value@ =~= accumulate(st.current.unwrap().1, part));
                        }
                        current = Some((i, value));
                    },
                    None => {
                        if leafy {
                            proof {
                                lemma_fold_stays_failed(options@, pv, k + 1 - from);
                            }
                            return None;
                        }
                        current = None;
                    },
                }
            },
        }
        k = k + 1;
    }
    proof {
        assert(pv.take(k - from) =~= pv);
    }
    let ghost st = leaf_fold(options@, pv);
    if !push_leaf_application_command_option(options, &mut parsed, current, Ghost(st)) {
        return None;
    }
    if !required_application_command_options_present(options, &parsed, Ghost(flush(options@, st).parsed)) {
        return None;
    }
    Some(parsed)
}

pub open spec fn is_leaf_option(o: ApplicationCommandOptionInfo) -> bool {
    !is_structural_kind(o.kind)
}

pub open spec fn is_required_leaf(o: ApplicationCommandOptionInfo) -> bool {
    o.required && !is_structural_kind(o.kind)
}

/// How many options take a value (`required_only`: how many of those are required).
pub open spec fn leaf_count(options: Seq<ApplicationCommandOptionInfo>, required_only: bool) -> nat
    decreases options.len(),
{
    if options.len() == 0 {
        0
    } else {
        leaf_count(options.drop_last(), required_only) + (if (required_only && is_required_leaf(
            options.last(),
        )) || (!required_only && is_leaf_option(options.last())) {
            1nat
        } else {
            0nat
        })
    }
}

pub open spec fn counted(o: ApplicationCommandOptionInfo, required_only: bool) -> bool {
    if required_only {
        is_required_leaf(o)
    } else {
        is_leaf_option(o)
    }
}

pub open spec fn is_first_counted(options: Seq<ApplicationCommandOptionInfo>, required_only: bool, i: int) -> bool {
    &&& 0 <= i < options.len()
    &&& counted(options[i], required_only)
    &&& forall|j: int| 0 <= j < i ==> !counted(#[trigger] options[j], required_only)
}

pub open spec fn first_counted(options: Seq<ApplicationCommandOptionInfo>, required_only: bool) -> Option<int> {
    if exists|i: int| is_first_counted(options, required_only, i) {
        Some(choose|i: int| is_first_counted(options, required_only, i))
    } else {
        None
    }
}

proof fn lemma_first_counted_is(options: Seq<ApplicationCommandOptionInfo>, required_only: bool, i: int)
    requires
        is_first_counted(options, required_only, i),
    ensures
        first_counted(options, required_only) == Some(i),
{
    let k = choose|k: int| is_first_counted(options, required_only, k);
    assert(is_first_counted(options, required_only, k));
    if k < i {
        assert(!counted(options[k], required_only));
    } else if i < k {
        assert(!counted(options[i], required_only));
    }
}

/// The one option a `subcommand:value` word fills: the only required
/// value-taking option, or else the only value-taking option.
pub open spec fn single_leaf_option(options: Seq<ApplicationCommandOptionInfo>) -> Option<int> {
    if leaf_count(options, true) == 1 {
        first_counted(options, true)
    } else if leaf_count(options, false) == 1 {
        first_counted(options, false)
    } else {
        None
    }
}

/// `raw` followed by each trailing word, single spaces between non-empty parts.
pub open spec fn joined(raw: Seq<char>, trailing: Seq<Seq<char>>) -> Seq<char>
    decreases trailing.len(),
{
    if trailing.len() == 0 {
        raw
    } else {
        accumulate(joined(raw, trailing.drop_last()), trailing.last())
    }
}

/// The values of `subcommand:value rest...`, where the whole text fills the
/// subcommand's single option.
pub open spec fn parse_single(
    options: Seq<ApplicationCommandOptionInfo>,
    raw: Seq<char>,
    trailing: Seq<Seq<char>>,
) -> Option<Seq<LeafModel>> {
    match single_leaf_option(options) {
        None => None,
        Some(i) => {
            let st = flush(
                options,
                LeafState { ok: true, parsed: seq![], current: Some((i, joined(raw, trailing))) },
            );
            if st.ok && required_present(options, st.parsed) {
                Some(st.parsed)
            } else {
                None
            }
        },
    }
}

/// Finds the option a lone `subcommand:value` word fills.
fn single_leaf_index(options: &Vec<ApplicationCommandOptionInfo>) -> (r: Option<usize>)
    ensures
        r matches Some(i) ==> single_leaf_option(options@) == Some(i as int),
        r is None ==> single_leaf_option(options@) is None,
{
    let mut leaves: usize = 0;
    let mut required: usize = 0;
    let mut first_leaf: Option<usize> = None;
    let mut first_required: Option<usize> = None;
    let mut i: usize = 0;
    while i < options.len()
        invariant
            i <= options.len(),
            leaves == leaf_count(options@.take(i as int), false),
            required == leaf_count(options@.take(i as int), true),
            leaves <= i,
            required <= i,
            first_leaf is None ==> forall|j: int| 0 <= j < i ==> !counted(#[trigger] options@[j], false),
            first_leaf matches Some(f) ==> is_first_counted(options@, false, f as int) && f < i,
            first_required is None ==> forall|j: int| 0 <= j < i ==> !counted(#[trigger] options@[j], true),
            first_required matches Some(f) ==> is_first_counted(options@, true, f as int) && f < i,
        decreases options.len() - i,
    {
        proof {
            assert(options@.take(i + 1).drop_last() =~= options@.take(i as int));
        }
        let leaf = !is_structural_command_option(&options[i]);
        if leaf {
            if first_leaf.is_none() {
                first_leaf = Some(i);
            }
            leaves = leaves + 1;
            if options[i].required {
                if first_required.is_none() {
                    first_required = Some(i);
                }
                required = required + 1;
            }
        }
        i = i + 1;
    }
    proof {
        assert(options@.take(i as int) =~= options@);
    }
    if required == 1 {
        proof {
            lemma_count_one_has_first(options@, true);
            lemma_first_counted_is(options@, true, first_required.unwrap() as int);
        }
        first_required
    } else if leaves == 1 {
        proof {
            lemma_count_one_has_first(options@, false);
            lemma_first_counted_is(options@, false, first_leaf.unwrap() as int);
        }
        first_leaf
    } else {
        None
    }
}

proof fn lemma_count_positive_has_member(options: Seq<ApplicationCommandOptionInfo>, required_only: bool)
    requires
        leaf_count(options, required_only) > 0,
    ensures
        exists|j: int| 0 <= j < options.len() && counted(#[trigger] options[j], required_only),
    decreases options.len(),
{
    if counted(options.last(), required_only) {
        assert(counted(options[options.len() - 1], required_only));
    } else {
        lemma_count_positive_has_member(options.drop_last(), required_only);
        let j = choose|j: int| 0 <= j < options.drop_last().len() && counted(
            #[trigger] options.drop_last()[j],
            required_only,
        );
        assert(options[j] == options.drop_last()[j]);
    }
}

proof fn lemma_count_one_has_first(options: Seq<ApplicationCommandOptionInfo>, required_only: bool)
    requires
        leaf_count(options, required_only) == 1,
    ensures
        exists|j: int| 0 <= j < options.len() && counted(#[trigger] options[j], required_only),
{
    lemma_count_positive_has_member(options, required_only);
}

/// The values of `subcommand:value rest...` for the subcommand's options.
pub fn parse_single_leaf_application_command_option(
    options: &Vec<ApplicationCommandOptionInfo>,
    raw_value: &Vec<char>,
    parts: &Vec<Vec<char>>,
    from: usize,
) -> (r: Option<Vec<ApplicationCommandInteractionOption>>)
    requires
        from <= parts.len(),
    ensures
        ({
            let expected = parse_single(options@, raw_value@, parts_view(parts@).skip(from as int));
            &&& r is None <==> expected is None
            &&& r matches Some(os) ==> leaves_match(os@, expected->0)
        }),
{
    let ghost trailing = parts_view(parts@).skip(from as int);
    let index = match single_leaf_index(options) {
        Some(i) => i,
        None => return None,
    };
    let mut value: Vec<char> = Vec::new();
    let mut j: usize = 0;
    while j < raw_value.len()
        invariant
            j <= raw_value.len(),
            value@ == raw_value@.take(j as int),
        decreases raw_value.len() - j,
    {
        value.push(raw_value[j]);
        j = j + 1;
    }
    proof {
        assert(raw_value@.take(j as int) =~= raw_value@);
        assert(trailing.take(0) =~= Seq::<Seq<char>>::empty());
    }
    let mut k = from;
    while k < parts.len()
        invariant
            from <= k <= parts.len(),
            trailing == parts_view(parts@).skip(from as int),
            value@ == joined(raw_value@, trailing.take(k - from)),
        decreases parts.len() - k,
    {
        let part = &parts[k];
        if value.len() != 0 {
            value.push(' ');
        }
        let ghost base = value@;
        let mut m: usize = 0;
        while m < part.len()
            invariant
                m <= part.len(),
                value@ == base + part@.take(m as int),
            decreases part.len() - m,
        {
            value.push(part[m]);
            m = m + 1;
            proof {
                assert(part@.take(m as int) =~= part@.take(m - 1).push(part@[m - 1]));
            }
        }
        proof {
            assert(part@.take(m as int) =~= part@);
            assert(trailing.take(k + 1 - from).drop_last() =~= trailing.take(k - from));
            assert(trailing.take(k + 1 - from).last() == part@);
        }
        k = k + 1;
    }
    proof {
        assert(trailing.take(k - from) =~= trailing);
    }
    let ghost st = LeafState {
        ok: true,
        parsed: seq![],
        current: Some((index as int, joined(raw_value@, trailing))),
    };
    let mut parsed: Vec<ApplicationCommandInteractionOption> = Vec::new();
    if !push_leaf_application_command_option(options, &mut parsed, Some((index, value)), Ghost(st)) {
        return None;
    }
    if !required_application_command_options_present(options, &parsed, Ghost(flush(options@, st).parsed)) {
        return None;
    }
    Some(parsed)
}

/// The shape of the options an invocation produces.
pub enum ParsedOptions {
    /// The command's own value-taking options.
    Leaves(Seq<LeafModel>),
    /// One subcommand and its values.
    Subcommand { kind: u64, name: Seq<char>, leaves: Seq<LeafModel> },
    /// A subcommand group holding one subcommand and its values.
    Group { kind: u64, name: Seq<char>, sub_kind: u64, sub_name: Seq<char>, leaves: Seq<LeafModel> },
}

pub open spec fn structural_matches(
    o: ApplicationCommandInteractionOption,
    kind: u64,
    name: Seq<char>,
) -> bool {
    &&& o.kind == kind
    &&& o.name@ == name
    &&& o.value is None
}

pub open spec fn options_match(os: Seq<ApplicationCommandInteractionOption>, m: ParsedOptions) -> bool {
    match m {
        ParsedOptions::Leaves(ls) => leaves_match(os, ls),
        ParsedOptions::Subcommand { kind, name, leaves } => {
            &&& os.len() == 1
            &&& structural_matches(os[0], kind, name)
            &&& leaves_match(os[0].options@, leaves)
        },
        ParsedOptions::Group { kind, name, sub_kind, sub_name, leaves } => {
            &&& os.len() == 1
            &&& structural_matches(os[0], kind, name)
            &&& os[0].options@.len() == 1
            &&& structural_matches(os[0].options@[0], sub_kind, sub_name)
            &&& leaves_match(os[0].options@[0].options@, leaves)
        },
    }
}

pub open spec fn has_structural(options: Seq<ApplicationCommandOptionInfo>) -> bool {
    exists|i: int| 0 <= i < options.len() && is_structural_kind(#[trigger] options[i].kind)
}

/// The options of the words after the command name:
/// `sub:value rest...` fills a subcommand's single option;
/// `group sub name:value...` and `sub name:value...` pick a subcommand;
/// otherwise, when the command has no subcommands, the words are its own
/// `name:value` options.
pub open spec fn options_from_parts(parts: Seq<Seq<char>>, options: Seq<ApplicationCommandOptionInfo>) -> Option<
    ParsedOptions,
> {
    let lead_sub = if parts.len() > 0 {
        match colon_split(parts[0]) {
            Some((name, raw)) => match first_fit(options, OptionSelector::Subcommand, name) {
                Some(i) => Some((i, raw)),
                None => None,
            },
            None => None,
        }
    } else {
        None
    };
    let plain_first = parts.len() > 0 && colon_split(parts[0]) is None;
    if lead_sub is Some {
        let (si, raw) = lead_sub->0;
        let sub = options[si];
        match parse_single(sub.options@, raw, parts.skip(1)) {
            Some(leaves) => Some(ParsedOptions::Subcommand { kind: sub.kind, name: sub.name@, leaves }),
            None => None,
        }
    } else if plain_first && first_fit(options, OptionSelector::Group, parts[0]) is Some {
        let group = options[first_fit(options, OptionSelector::Group, parts[0])->0];
        if parts.len() < 2 || colon_split(parts[1]) is Some {
            None
        } else {
            match first_fit(group.options@, OptionSelector::Subcommand, parts[1]) {
                None => None,
                Some(si) => {
                    let sub = group.options@[si];
                    match parse_leaves(parts.skip(2), sub.options@) {
                        Some(leaves) => Some(
                            ParsedOptions::Group {
                                kind: group.kind,
                                name: group.name@,
                                sub_kind: sub.kind,
                                sub_name: sub.name@,
                                leaves,
                            },
                        ),
                        None => None,
                    }
                },
            }
        }
    } else if plain_first && first_fit(options, OptionSelector::Subcommand, parts[0]) is Some {
        let sub = options[first_fit(options, OptionSelector::Subcommand, parts[0])->0];
        match parse_leaves(parts.skip(1), sub.options@) {
            Some(leaves) => Some(ParsedOptions::Subcommand { kind: sub.kind, name: sub.name@, leaves }),
            None => None,
        }
    } else if has_structural(options) {
        None
    } else {
        match parse_leaves(parts, options) {
            Some(leaves) => Some(ParsedOptions::Leaves(leaves)),
            None => None,
        }
    }
}

/// The options of composer content `/name word word...` for a command named
/// `name`; `None` when the content is not that command or its options are
/// incomplete or invalid.
pub open spec fn invocation_options(
    content: Seq<char>,
    command_name: Seq<char>,
    options: Seq<ApplicationCommandOptionInfo>,
) -> Option<ParsedOptions> {
    if content.len() == 0 || content[0] != '/' {
        None
    } else {
        let ws = crate::text::words(content.drop_first());
        if ws.len() == 0 || ws[0] != command_name {
            None
        } else {
            options_from_parts(ws.skip(1), options)
        }
    }
}

fn structural_interaction_option(
    option: &ApplicationCommandOptionInfo,
    options: Vec<ApplicationCommandInteractionOption>,
) -> (r: ApplicationCommandInteractionOption)
    ensures
        structural_matches(r, option.kind, option.name@),
        r.options == options,
{
    ApplicationCommandInteractionOption {
        kind: option.kind,
        name: option.name.clone(),
        value: None,
        options,
    }
}

fn has_structural_option(options: &Vec<ApplicationCommandOptionInfo>) -> (r: bool)
    ensures
        r == has_structural(options@),
{
    let mut i: usize = 0;
    while i < options.len()
        invariant
            i <= options.len(),
            forall|j: int| 0 <= j < i ==> !is_structural_kind(#[trigger] options@[j].kind),
        decreases options.len() - i,
    {
        if is_structural_command_option(&options[i]) {
            return true;
        }
        i = i + 1;
    }
    false
}

/// The options the words `parts[1..]` (after the command name) give.
pub fn parsed_application_command_options_from_parts(
    parts: &Vec<Vec<char>>,
    command: &ApplicationCommandInfo,
) -> (r: Option<Vec<ApplicationCommandInteractionOption>>)
    requires
        parts.len() >= 1,
    ensures
        ({
            let expected = options_from_parts(parts_view(parts@).skip(1), command.options@);
            &&& r is None <==> expected is None
            &&& r matches Some(os) ==> options_match(os@, expected->0)
        }),
{
    let ghost ps = parts_view(parts@).skip(1);
    let options = &command.options;
    proof {
        assert forall|k: int| 0 <= k < ps.len() implies ps[k] == parts@[k + 1]@ by {}
    }
    if parts.len() > 1 {
        if let Some((sub_name, raw_value)) = split_colon(&parts[1]) {
            if let Some(si) = find_option(options, OptionSelector::Subcommand, &sub_name) {
                let sub = &options[si];
                proof {
                    assert(ps.skip(1) =~= parts_view(parts@).skip(2));
                }
                let leaves = match parse_single_leaf_application_command_option(
                    &sub.options,
                    &raw_value,
                    parts,
                    2,
                ) {
                    Some(leaves) => leaves,
                    None => return None,
                };
                let mut out = Vec::new();
                out.push(structural_interaction_option(sub, leaves));
                return Some(out);
            }
        } else {
            if let Some(gi) = find_option(options, OptionSelector::Group, &parts[1]) {
                let group = &options[gi];
                if parts.len() < 3 {
                    return None;
                }
                if split_colon(&parts[2]).is_some() {
                    return None;
                }
                let si = match find_option(&group.options, OptionSelector::Subcommand, &parts[2]) {
                    Some(si) => si,
                    None => return None,
                };
                let sub = &group.options[si];
                proof {
                    assert(ps.skip(2) =~= parts_view(parts@).skip(3));
                }
                let leaves = match parse_leaf_application_command_options(parts, 3, &sub.options) {
                    Some(leaves) => leaves,
                    None => return None,
                };
                let mut inner = Vec::new();
                inner.push(structural_interaction_option(sub, leaves));
                let mut out = Vec::new();
                out.push(structural_interaction_option(group, inner));
                return Some(out);
            }
            if let Some(si) = find_option(options, OptionSelector::Subcommand, &parts[1]) {
                let sub = &options[si];
                proof {
                    assert(ps.skip(1) =~= parts_view(parts@).skip(2));
                }
                let leaves = match parse_leaf_application_command_options(parts, 2, &sub.options) {
                    Some(leaves) => leaves,
                    None => return None,
                };
                let mut out = Vec::new();
                out.push(structural_interaction_option(sub, leaves));
                return Some(out);
            }
        }
    }
    if has_structural_option(options) {
        return None;
    }
    match parse_leaf_application_command_options(parts, 1, options) {
        Some(leaves) => Some(leaves),
        None => None,
    }
}

/// The options composer content gives for a command; `None` when the content
/// is not that command or its options are incomplete or invalid.
pub fn parsed_application_command_options(content: &str, command: &ApplicationCommandInfo) -> (r:
    Option<Vec<ApplicationCommandInteractionOption>>)
    ensures
        ({
            let expected = invocation_options(content@, command.name@, command.options@);
            &&& r is None <==> expected is None
            &&& r matches Some(os) ==> options_match(os@, expected->0)
        }),
{
    let chars = crate::text::chars_of(content);
    if chars.len() == 0 || chars[0] != '/' {
        return None;
    }
    let rest = slice_chars(&chars, 1, chars.len());
    proof {
        assert(rest@ =~= content@.drop_first());
    }
    let parts = crate::text::split_words(&rest);
    proof {
        assert(parts_view(parts@) == crate::text::words(content@.drop_first()));
    }
    if parts.len() == 0 {
        return None;
    }
    let name = crate::text::chars_of(command.name.as_str());
    if !crate::text::chars_eq(&parts[0], &name) {
        proof {
            assert(parts_view(parts@)[0] == parts@[0]@);
        }
        return None;
    }
    proof {
        assert(parts_view(parts@)[0] == parts@[0]@);
    }
    parsed_application_command_options_from_parts(&parts, command)
}

/// Builds the interaction a typed invocation of `command` sends; `None` when
/// the invocation names another command or its options are incomplete or
/// invalid.
pub fn application_command_interaction_from_invocation(
    invocation: &ApplicationCommandInvocation,
    command: &ApplicationCommandInfo,
) -> (r: Option<ApplicationCommandInteraction>)
    ensures
        ({
            let expected = invocation_options(invocation.content@, command.name@, command.options@);
            &&& r is Some <==> invocation.command_name@ == command.name@ && expected is Some
            &&& r matches Some(interaction) ==> {
                &&& interaction.guild_id == invocation.guild_id
                &&& interaction.channel_id == invocation.channel_id
                &&& same_command(interaction.command, *command)
                &&& options_match(interaction.options@, expected->0)
            }
        }),
{
    if invocation.command_name != command.name {
        return None;
    }
    let options = match parsed_application_command_options(invocation.content.as_str(), command) {
        Some(options) => options,
        None => return None,
    };
    Some(
        ApplicationCommandInteraction {
            guild_id: invocation.guild_id,
            channel_id: invocation.channel_id,
            command: command.clone(),
            options,
        },
    )
}

/// Whether composer content holds a complete, valid invocation of `command`.
pub fn application_command_content_is_complete(content: &str, command: &ApplicationCommandInfo) -> (r:
    bool)
    ensures
        r == invocation_options(content@, command.name@, command.options@) is Some,
{
    parsed_application_command_options(content, command).is_some()
}

/// The option list the word under the cursor completes against: a
/// subcommand's options once the subcommand (possibly inside a group) is
/// typed, a group's subcommands once the group is typed, else the command's
/// own options.
pub open spec fn option_scope(command: ApplicationCommandInfo, before_cursor: Seq<char>) -> Option<
    Seq<ApplicationCommandOptionInfo>,
> {
    if before_cursor.len() == 0 || before_cursor[0] != '/' {
        None
    } else {
        let ws = crate::text::words(before_cursor.drop_first());
        if ws.len() == 0 || ws[0] != command.name@ {
            None
        } else {
            let parts = ws.skip(1);
            let options = command.options@;
            if parts.len() == 0 || colon_split(parts[0]) is Some {
                Some(options)
            } else {
                match first_fit(options, OptionSelector::Group, parts[0]) {
                    Some(gi) => {
                        let group = options[gi].options@;
                        if parts.len() < 2 || colon_split(parts[1]) is Some {
                            Some(group)
                        } else {
                            match first_fit(group, OptionSelector::Subcommand, parts[1]) {
                                Some(si) => Some(group[si].options@),
                                None => Some(group),
                            }
                        }
                    },
                    None => match first_fit(options, OptionSelector::Subcommand, parts[0]) {
                        Some(si) => Some(options[si].options@),
                        None => Some(options),
                    },
                }
            }
        }
    }
}

pub fn application_command_option_scope<'a>(
    command: &'a ApplicationCommandInfo,
    before_cursor: &str,
) -> (r: Option<&'a [ApplicationCommandOptionInfo]>)
    ensures
        r is None <==> option_scope(*command, before_cursor@) is None,
        r matches Some(scope) ==> option_scope(*command, before_cursor@) == Some(scope@),
{
    let chars = crate::text::chars_of(before_cursor);
    if chars.len() == 0 || chars[0] != '/' {
        return None;
    }
    let rest = slice_chars(&chars, 1, chars.len());
    proof {
        assert(rest@ =~= before_cursor@.drop_first());
    }
    let parts = crate::text::split_words(&rest);
    proof {
        assert(parts_view(parts@) == crate::text::words(before_cursor@.drop_first()));
        if parts.len() > 0 {
            assert(parts_view(parts@)[0] == parts@[0]@);
        }
        if parts.len() > 1 {
            assert(parts_view(parts@)[1] == parts@[1]@);
            assert(parts_view(parts@).skip(1)[0] == parts@[1]@);
        }
        if parts.len() > 2 {
            assert(parts_view(parts@).skip(1)[1] == parts@[2]@);
        }
    }
    if parts.len() == 0 {
        return None;
    }
    let name = crate::text::chars_of(command.name.as_str());
    if !crate::text::chars_eq(&parts[0], &name) {
        return None;
    }
    let options = &command.options;
    if parts.len() < 2 || split_colon(&parts[1]).is_some() {
        return Some(options.as_slice());
    }
    match find_option(options, OptionSelector::Group, &parts[1]) {
        Some(gi) => {
            let group = &options[gi].options;
            if parts.len() < 3 || split_colon(&parts[2]).is_some() {
                return Some(group.as_slice());
            }
            match find_option(group, OptionSelector::Subcommand, &parts[2]) {
                Some(si) => Some(group[si].options.as_slice()),
                None => Some(group.as_slice()),
            }
        },
        None => match find_option(options, OptionSelector::Subcommand, &parts[1]) {
            Some(si) => Some(options[si].options.as_slice()),
            None => Some(options.as_slice()),
        },
    }
}

/// Where an option list sits in a command, naming the list by its place
/// rather than by its address: the command's own options, the subcommands
/// of the group at `group`, the options of subcommand `subcommand` of that
/// group, or the options of the top-level subcommand at `subcommand`.
#[derive(Clone, Copy, Debug, PartialEq, Eq, Structural)]
pub enum OptionScopePath {
    Command,
    Group { group: usize },
    GroupSubcommand { group: usize, subcommand: usize },
    Subcommand { subcommand: usize },
}

/// The positions of the path lie within the command.
pub open spec fn path_is_valid(command: ApplicationCommandInfo, path: OptionScopePath) -> bool {
    match path {
        OptionScopePath::Command => true,
        OptionScopePath::Group { group } => group < command.options@.len(),
        OptionScopePath::GroupSubcommand { group, subcommand } => group < command.options@.len()
            && subcommand < command.options@[group as int].options@.len(),
        OptionScopePath::Subcommand { subcommand } => subcommand < command.options@.len(),
    }
}

/// The option list at the end of the path.
pub open spec fn path_options(command: ApplicationCommandInfo, path: OptionScopePath) -> Seq<
    ApplicationCommandOptionInfo,
> {
    match path {
        OptionScopePath::Command => command.options@,
        OptionScopePath::Group { group } => command.options@[group as int].options@,
        OptionScopePath::GroupSubcommand { group, subcommand } => command.options@[group as int].options@[
        subcommand as int].options@,
        OptionScopePath::Subcommand { subcommand } => command.options@[subcommand as int].options@,
    }
}

/// The place of the option list that `option_scope` picks.
pub open spec fn option_scope_path(command: ApplicationCommandInfo, before_cursor: Seq<char>) -> Option<
    OptionScopePath,
> {
    if before_cursor.len() == 0 || before_cursor[0] != '/' {
        None
    } else {
        let ws = crate::text::words(before_cursor.drop_first());
        if ws.len() == 0 || ws[0] != command.name@ {
            None
        } else {
            let parts = ws.skip(1);
            let options = command.options@;
            if parts.len() == 0 || colon_split(parts[0]) is Some {
                Some(OptionScopePath::Command)
            } else {
                match first_fit(options, OptionSelector::Group, parts[0]) {
                    Some(gi) => {
                        let group = options[gi].options@;
                        if parts.len() < 2 || colon_split(parts[1]) is Some {
                            Some(OptionScopePath::Group { group: gi as usize })
                        } else {
                            match first_fit(group, OptionSelector::Subcommand, parts[1]) {
                                Some(si) => Some(
                                    OptionScopePath::GroupSubcommand {
                                        group: gi as usize,
                                        subcommand: si as usize,
                                    },
                                ),
                                None => Some(OptionScopePath::Group { group: gi as usize }),
                            }
                        }
                    },
                    None => match first_fit(options, OptionSelector::Subcommand, parts[0]) {
                        Some(si) => Some(OptionScopePath::Subcommand { subcommand: si as usize }),
                        None => Some(OptionScopePath::Command),
                    },
                }
            }
        }
    }
}

/// Where the option list that the word under the cursor completes against
/// sits: the same list as `application_command_option_scope` gives.
pub fn application_command_option_scope_path(command: &ApplicationCommandInfo, before_cursor: &str) -> (r:
    Option<OptionScopePath>)
    ensures
        r == option_scope_path(*command, before_cursor@),
        r is None <==> option_scope(*command, before_cursor@) is None,
        r matches Some(path) ==> path_is_valid(*command, path) && option_scope(*command, before_cursor@)
            == Some(path_options(*command, path)),
{
    let chars = crate::text::chars_of(before_cursor);
    if chars.len() == 0 || chars[0] != '/' {
        return None;
    }
    let rest = slice_chars(&chars, 1, chars.len());
    proof {
        assert(rest@ =~= before_cursor@.drop_first());
    }
    let parts = crate::text::split_words(&rest);
    proof {
        assert(parts_view(parts@) == crate::text::words(before_cursor@.drop_first()));
        if parts.len() > 0 {
            assert(parts_view(parts@)[0] == parts@[0]@);
        }
        if parts.len() > 1 {
            assert(parts_view(parts@)[1] == parts@[1]@);
            assert(parts_view(parts@).skip(1)[0] == parts@[1]@);
        }
        if parts.len() > 2 {
            assert(parts_view(parts@).skip(1)[1] == parts@[2]@);
        }
    }
    if parts.len() == 0 {
        return None;
    }
    let name = crate::text::chars_of(command.name.as_str());
    if !crate::text::chars_eq(&parts[0], &name) {
        return None;
    }
    let options = &command.options;
    if parts.len() < 2 || split_colon(&parts[1]).is_some() {
        return Some(OptionScopePath::Command);
    }
    match find_option(options, OptionSelector::Group, &parts[1]) {
        Some(gi) => {
            let group = &options[gi].options;
            if parts.len() < 3 || split_colon(&parts[2]).is_some() {
                return Some(OptionScopePath::Group { group: gi });
            }
            match find_option(group, OptionSelector::Subcommand, &parts[2]) {
                Some(si) => Some(OptionScopePath::GroupSubcommand { group: gi, subcommand: si }),
                None => Some(OptionScopePath::Group { group: gi }),
            }
        },
        None => match find_option(options, OptionSelector::Subcommand, &parts[1]) {
            Some(si) => Some(OptionScopePath::Subcommand { subcommand: si }),
            None => Some(OptionScopePath::Command),
        },
    }
}

fn scope_options<'a>(command: &'a ApplicationCommandInfo, path: OptionScopePath) -> (r:
    &'a Vec<ApplicationCommandOptionInfo>)
    requires
        path_is_valid(*command, path),
    ensures
        r@ == path_options(*command, path),
{
    match path {
        OptionScopePath::Command => &command.options,
        OptionScopePath::Group { group } => &command.options[group].options,
        OptionScopePath::GroupSubcommand { group, subcommand } => &command.options[group].options[subcommand].options,
        OptionScopePath::Subcommand { subcommand } => &command.options[subcommand].options,
    }
}

/// How many of the words after the command name name the way to the option
/// list at `path` (its group, then its subcommand), and so come before the
/// `name:value` words of that list: none for the command's own options or
/// when the words do not lead to that list.
pub open spec fn leaf_skip(parts: Seq<Seq<char>>, command: ApplicationCommandInfo, path: OptionScopePath) -> int {
    let options = command.options@;
    if path is Command || parts.len() == 0 || colon_split(parts[0]) is Some {
        0
    } else {
        match first_fit(options, OptionSelector::Group, parts[0]) {
            Some(gi) => if path == (OptionScopePath::Group { group: gi as usize }) {
                1
            } else if parts.len() < 2 || colon_split(parts[1]) is Some {
                0
            } else {
                match path {
                    OptionScopePath::GroupSubcommand { group, subcommand } => if group as int == gi
                        && subcommand < options[gi].options@.len() && fits(
                        options[gi].options@[subcommand as int],
                        OptionSelector::Subcommand,
                        parts[1],
                    ) {
                        2
                    } else {
                        0
                    },
                    _ => 0,
                }
            },
            None => match path {
                OptionScopePath::Subcommand { subcommand } => if subcommand < options.len() && fits(
                    options[subcommand as int],
                    OptionSelector::Subcommand,
                    parts[0],
                ) {
                    1
                } else {
                    0
                },
                _ => 0,
            },
        }
    }
}

/// The start, within `parts`, of the `name:value` words for the option list
/// at `path`; `parts[1..]` are the words after the command name.
fn leaf_application_command_parts(
    parts: &Vec<Vec<char>>,
    command: &ApplicationCommandInfo,
    path: OptionScopePath,
) -> (r: usize)
    requires
        parts.len() >= 1,
    ensures
        r == 1 + leaf_skip(parts_view(parts@).skip(1), *command, path),
        r <= parts.len(),
{
    let ghost ps = parts_view(parts@).skip(1);
    proof {
        assert forall|k: int| 0 <= k < ps.len() implies ps[k] == parts@[k + 1]@ by {}
    }
    if let OptionScopePath::Command = path {
        return 1;
    }
    if parts.len() < 2 || split_colon(&parts[1]).is_some() {
        return 1;
    }
    let options = &command.options;
    match find_option(options, OptionSelector::Group, &parts[1]) {
        Some(gi) => {
            let names_group = match path {
                OptionScopePath::Group { group } => group == gi,
                _ => false,
            };
            if names_group {
                return 2;
            }
            if parts.len() < 3 || split_colon(&parts[2]).is_some() {
                return 1;
            }
            match path {
                OptionScopePath::GroupSubcommand { group, subcommand } => {
                    let group_options = &options[gi].options;
                    if group == gi && subcommand < group_options.len()
                        && group_options[subcommand].kind == APPLICATION_COMMAND_SUBCOMMAND_KIND
                        && name_is(&group_options[subcommand], &parts[2]) {
                        3
                    } else {
                        1
                    }
                },
                _ => 1,
            }
        },
        None => match path {
            OptionScopePath::Subcommand { subcommand } => {
                if subcommand < options.len() && options[subcommand].kind
                    == APPLICATION_COMMAND_SUBCOMMAND_KIND && name_is(&options[subcommand], &parts[1]) {
                    2
                } else {
                    1
                }
            },
            _ => 1,
        },
    }
}

/// The names of the options that composer content gives for the option list
/// at `path`: the options of a complete and valid `name:value` list, none
/// when the content is not this command or the list does not read.
pub open spec fn option_names(content: Seq<char>, command: ApplicationCommandInfo, path: OptionScopePath) -> Seq<
    LeafModel,
> {
    if content.len() == 0 || content[0] != '/' {
        Seq::empty()
    } else {
        let ws = crate::text::words(content.drop_first());
        if ws.len() == 0 || ws[0] != command.name@ {
            Seq::empty()
        } else {
            let parts = ws.skip(1);
            match parse_leaves(parts.skip(leaf_skip(parts, command, path)), path_options(command, path)) {
                Some(leaves) => leaves,
                None => Seq::empty(),
            }
        }
    }
}

/// The option names already given in composer content for the option list
/// at `path` (as `application_command_option_scope_path` finds it), each
/// once, in the order they first appear.
pub fn parsed_application_command_option_names(
    content: &str,
    command: &ApplicationCommandInfo,
    path: OptionScopePath,
) -> (r: Vec<String>)
    requires
        path_is_valid(*command, path),
    ensures
        ({
            let names = option_names(content@, *command, path);
            &&& forall|i: int| 0 <= i < r@.len() ==> leaf_named(names, #[trigger] r@[i]@)
            &&& forall|k: int| 0 <= k < names.len() ==> lists_name(r@, #[trigger] names[k].name)
            &&& forall|i: int, j: int| 0 <= i < j < r@.len() ==> r@[i]@ != r@[j]@
        }),
{
    let ghost names = option_names(content@, *command, path);
    let chars = crate::text::chars_of(content);
    if chars.len() == 0 || chars[0] != '/' {
        return Vec::new();
    }
    let rest = slice_chars(&chars, 1, chars.len());
    proof {
        assert(rest@ =~= content@.drop_first());
    }
    let parts = crate::text::split_words(&rest);
    proof {
        assert(parts_view(parts@) == crate::text::words(content@.drop_first()));
        if parts.len() > 0 {
            assert(parts_view(parts@)[0] == parts@[0]@);
        }
    }
    if parts.len() == 0 {
        return Vec::new();
    }
    let name = crate::text::chars_of(command.name.as_str());
    if !crate::text::chars_eq(&parts[0], &name) {
        return Vec::new();
    }
    let from = leaf_application_command_parts(&parts, command, path);
    let options = scope_options(command, path);
    proof {
        let ps = parts_view(parts@).skip(1);
        assert(ps.skip(leaf_skip(ps, *command, path)) =~= parts_view(parts@).skip(from as int));
    }
    let leaves = match parse_leaf_application_command_options(&parts, from, options) {
        Some(leaves) => leaves,
        None => return Vec::new(),
    };
    let out = distinct_option_names(&leaves);
    proof {
        assert(names == parse_leaves(parts_view(parts@).skip(from as int), options@)->0);
        assert(names.len() == leaves@.len());
        assert forall|i: int| 0 <= i < out@.len() implies leaf_named(names, #[trigger] out@[i]@) by {
            assert(names_option(leaves@, leaves@.len() as int, out@[i]@));
            let k = choose|k: int| 0 <= k < leaves@.len() && leaves@[k].name@ == out@[i]@;
            assert(leaf_matches(leaves@[k], names[k]));
        }
        assert forall|k: int| 0 <= k < names.len() implies lists_name(out@, #[trigger] names[k].name) by {
            assert(leaf_matches(leaves@[k], names[k]));
            assert(lists_name(out@, leaves@[k].name@));
        }
    }
    out
}

/// Some parsed option has this name.
pub open spec fn leaf_named(names: Seq<LeafModel>, name: Seq<char>) -> bool {
    exists|k: int| 0 <= k < names.len() && names[k].name == name
}

/// Some option among the first `n` has this name.
pub open spec fn names_option(options: Seq<ApplicationCommandInteractionOption>, n: int, name: Seq<char>) -> bool {
    exists|k: int| 0 <= k < n && options[k].name@ == name
}

/// Some text of the list is this name.
pub open spec fn lists_name(out: Seq<String>, name: Seq<char>) -> bool {
    exists|a: int| 0 <= a < out.len() && out[a]@ == name
}

/// The names of a list of options, each once, in the order they first
/// appear.
fn distinct_option_names(options: &Vec<ApplicationCommandInteractionOption>) -> (r: Vec<String>)
    ensures
        forall|a: int| 0 <= a < r@.len() ==> names_option(options@, options@.len() as int, #[trigger] r@[a]@),
        forall|k: int| 0 <= k < options@.len() ==> lists_name(r@, #[trigger] options@[k].name@),
        forall|a: int, b: int| 0 <= a < b < r@.len() ==> r@[a]@ != r@[b]@,
{
    let mut out: Vec<String> = Vec::new();
    let mut i: usize = 0;
    while i < options.len()
        invariant
            i <= options@.len(),
            forall|a: int| 0 <= a < out@.len() ==> names_option(options@, i as int, #[trigger] out@[a]@),
            forall|k: int| 0 <= k < i ==> lists_name(out@, #[trigger] options@[k].name@),
            forall|a: int, b: int| 0 <= a < b < out@.len() ==> out@[a]@ != out@[b]@,
        decreases options@.len() - i,
    {
        let candidate = &options[i].name;
        let wanted = crate::text::chars_of(candidate.as_str());
        let mut seen = false;
        let mut j: usize = 0;
        while j < out.len()
            invariant
                j <= out@.len(),
                wanted@ == candidate@,
                seen ==> lists_name(out@, candidate@),
                !seen ==> forall|a: int| 0 <= a < j ==> out@[a]@ != candidate@,
            decreases out@.len() - j,
        {
            let have = crate::text::chars_of(out[j].as_str());
            if crate::text::chars_eq(&have, &wanted) {
                seen = true;
            }
            j = j + 1;
        }
        let ghost prev = out@;
        if !seen {
            out.push(candidate.clone());
        }
        proof {
            assert forall|k: int| 0 <= k < i + 1 implies lists_name(out@, #[trigger] options@[k].name@) by {
                if k < i {
                    assert(lists_name(prev, options@[k].name@));
                    let a = choose|a: int| 0 <= a < prev.len() && prev[a]@ == options@[k].name@;
                    assert(out@[a] == prev[a]);
                } else if !seen {
                    assert(out@[out@.len() - 1]@ == options@[k].name@);
                }
            }
            assert forall|a: int| 0 <= a < out@.len() implies names_option(
                options@,
                i + 1,
                #[trigger] out@[a]@,
            ) by {
                if a < prev.len() {
                    assert(out@[a] == prev[a]);
                    assert(names_option(options@, i as int, prev[a]@));
                    let k = choose|k: int| 0 <= k < i && options@[k].name@ == prev[a]@;
                    assert(0 <= k < i + 1 && options@[k].name@ == out@[a]@);
                } else {
                    assert(options@[i as int].name@ == out@[a]@);
                }
            }
        }
        i = i + 1;
    }
    out
}

/// The position of the first command named `name`.
pub open spec fn first_named(commands: Seq<ApplicationCommandInfo>, name: Seq<char>) -> Option<int> {
    if exists|i: int|
        0 <= i < commands.len() && commands[i].name@ == name && forall|j: int|
            0 <= j < i ==> commands[j].name@ != name {
        Some(
            choose|i: int|
                0 <= i < commands.len() && commands[i].name@ == name && forall|j: int|
                    0 <= j < i ==> commands[j].name@ != name,
        )
    } else {
        None
    }
}

fn find_command(commands: &Vec<ApplicationCommandInfo>, name: &str) -> (r: Option<usize>)
    ensures
        match r {
            Some(i) => first_named(commands@, name@) == Some(i as int),
            None => first_named(commands@, name@) is None,
        },
{
    let wanted = crate::text::chars_of(name);
    let mut i: usize = 0;
    while i < commands.len()
        invariant
            i <= commands@.len(),
            wanted@ == name@,
            forall|j: int| 0 <= j < i ==> commands@[j].name@ != name@,
        decreases commands@.len() - i,
    {
        let have = crate::text::chars_of(commands[i].name.as_str());
        if crate::text::chars_eq(&have, &wanted) {
            proof {
                let k = choose|k: int|
                    0 <= k < commands@.len() && commands@[k].name@ == name@ && forall|j: int|
                        0 <= j < k ==> commands@[j].name@ != name@;
                if k < i {
                    assert(commands@[k].name@ != name@);
                } else if k > i {
                    assert(commands@[i as int].name@ != name@);
                }
            }
            return Some(i);
        }
        i = i + 1;
    }
    None
}

/// The message of an invocation of a command that is not loaded.
pub open spec fn command_not_loaded_message(name: Seq<char>) -> Seq<char> {
    "application command "@ + name + " is not loaded"@
}

/// The message of an invocation whose options do not read.
pub open spec fn command_options_invalid_message(name: Seq<char>) -> Seq<char> {
    "application command "@ + name + " options are incomplete or invalid"@
}

/// The interaction an invocation sends, built against the commands loaded
/// for its guild (`None` when none were loaded): an error when no loaded
/// command has the invoked name, or when the typed options of the first one
/// that has it do not read.
pub fn application_command_interaction(
    loaded: Option<&Vec<ApplicationCommandInfo>>,
    invocation: &ApplicationCommandInvocation,
) -> (r: Result<ApplicationCommandInteraction, AppError>)
    ensures
        match loaded {
            Some(commands) => match first_named(commands@, invocation.command_name@) {
                Some(i) => {
                    let command = commands@[i];
                    let expected = invocation_options(invocation.content@, command.name@, command.options@);
                    match r {
                        Ok(interaction) => expected is Some && interaction.guild_id == invocation.guild_id
                            && interaction.channel_id == invocation.channel_id && same_command(
                            interaction.command,
                            command,
                        ) && options_match(interaction.options@, expected->0),
                        Err(e) => expected is None && (e matches AppError::DiscordRequest(m) && m@
                            == command_options_invalid_message(invocation.command_name@)),
                    }
                },
                None => r matches Err(AppError::DiscordRequest(m)) && m@ == command_not_loaded_message(
                    invocation.command_name@,
                ),
            },
            None => r matches Err(AppError::DiscordRequest(m)) && m@ == command_not_loaded_message(
                invocation.command_name@,
            ),
        },
{
    let commands = match loaded {
        Some(commands) => commands,
        None => {
            let mut message = String::new();
            crate::text::push_str(&mut message, "application command ");
            crate::text::push_str(&mut message, invocation.command_name.as_str());
            crate::text::push_str(&mut message, " is not loaded");
            return Err(AppError::DiscordRequest(message));
        },
    };
    let i = match find_command(commands, invocation.command_name.as_str()) {
        Some(i) => i,
        None => {
            let mut message = String::new();
            crate::text::push_str(&mut message, "application command ");
            crate::text::push_str(&mut message, invocation.command_name.as_str());
            crate::text::push_str(&mut message, " is not loaded");
            return Err(AppError::DiscordRequest(message));
        },
    };
    match application_command_interaction_from_invocation(invocation, &commands[i]) {
        Some(interaction) => Ok(interaction),
        None => {
            let mut message = String::new();
            crate::text::push_str(&mut message, "application command ");
            crate::text::push_str(&mut message, invocation.command_name.as_str());
            crate::text::push_str(&mut message, " options are incomplete or invalid");
            Err(AppError::DiscordRequest(message))
        },
    }
}

/// Milliseconds since the Unix epoch by the system clock, cut to 64 bits; 0
/// for a clock set before the epoch. Nothing is claimed of the value.
#[verifier::external_body]
fn unix_millis_now() -> u64 {
    std::time::SystemTime::now().duration_since(std::time::UNIX_EPOCH).map(|d| d.as_millis() as u64).unwrap_or_default()
}

/// The nonce of an interaction sent at `millis` since the Unix epoch: the
/// time shifted into a snowflake's timestamp bits, in decimal.
pub open spec fn nonce_of_millis(millis: u64) -> Seq<char> {
    decimal(((millis * 4194304) % 0x1_0000_0000_0000_0000) as nat)
}

/// The nonce of an interaction sent at `millis` since the Unix epoch.
pub fn interaction_nonce_from_millis(millis: u64) -> (r: String)
    ensures
        r@ == nonce_of_millis(millis),
{
    let shifted = millis << 22u64;
    proof {
        assert(millis << 22u64 == (millis * 4194304) % 0x1_0000_0000_0000_0000) by (bit_vector);
    }
    decimal_string(shifted)
}

/// A nonce for an interaction sent now.
pub fn interaction_nonce() -> (r: String)
    ensures
        exists|millis: u64| r@ == nonce_of_millis(millis),
{
    let millis = unix_millis_now();
    interaction_nonce_from_millis(millis)
}

/// A boolean option reads the words `true`, `yes`, `1` and `on` as the JSON
/// value `true`, and the words `false`, `no`, `0` and `off` as `false`: the
/// value sent is whether the word is one of the first four. No word is in
/// both sets.
pub proof fn lemma_boolean_option_words(raw: Seq<char>)
    ensures
        ({
            let says_yes = raw == "true"@ || raw == "yes"@ || raw == "1"@ || raw == "on"@;
            let says_no = raw == "false"@ || raw == "no"@ || raw == "0"@ || raw == "off"@;
            &&& (says_yes || says_no) ==> option_value(APPLICATION_COMMAND_BOOLEAN_KIND, raw)
                == Some(json_bool(says_yes))
            &&& !(says_yes && says_no)
        }),
{
    reveal_strlit("true");
    reveal_strlit("yes");
    reveal_strlit("1");
    reveal_strlit("on");
    reveal_strlit("false");
    reveal_strlit("no");
    reveal_strlit("0");
    reveal_strlit("off");
    if raw == "false"@ || raw == "no"@ || raw == "0"@ || raw == "off"@ {
        assert(raw != "true"@ && raw != "yes"@ && raw != "1"@ && raw != "on"@) by {
            if raw == "false"@ {
                assert(raw.len() != "true"@.len());
                assert(raw.len() != "yes"@.len());
                assert(raw.len() != "1"@.len());
                assert(raw.len() != "on"@.len());
            } else if raw == "no"@ {
                assert(raw.len() != "true"@.len());
                assert(raw.len() != "yes"@.len());
                assert(raw.len() != "1"@.len());
                assert(raw[0] != "on"@[0]);
            } else if raw == "0"@ {
                assert(raw.len() != "true"@.len());
                assert(raw.len() != "yes"@.len());
                assert(raw[0] != "1"@[0]);
                assert(raw.len() != "on"@.len());
            } else {
                assert(raw.len() != "true"@.len());
                assert(raw[0] != "yes"@[0]);
                assert(raw.len() != "1"@.len());
                assert(raw.len() != "on"@.len());
            }
        }
    }
}

/// A user (or mentionable) option accepts a user mention with or without the
/// nickname mark: `<@ID>` and `<@!ID>` both give `ID` when it is a snowflake,
/// and the option is sent as that id's text.
pub proof fn lemma_user_mention_forms(kind: u64, id: Seq<char>)
    requires
        kind == APPLICATION_COMMAND_USER_KIND || kind == APPLICATION_COMMAND_MENTIONABLE_KIND,
        is_snowflake_text(id),
    ensures
        snowflake_value(kind, "<@"@ + id + ">"@) == Some(id),
        snowflake_value(kind, "<@!"@ + id + ">"@) == Some(id),
        option_value(kind, "<@"@ + id + ">"@) == Some(json_string(id)),
        option_value(kind, "<@!"@ + id + ">"@) == Some(json_string(id)),
{
    reveal_strlit("<@");
    reveal_strlit("<@!");
    reveal_strlit(">");
    let plain = "<@"@ + id + ">"@;
    let nick = "<@!"@ + id + ">"@;
    assert(!is_snowflake_text(plain)) by {
        assert(plain[0] == '<');
    }
    assert(!is_snowflake_text(nick)) by {
        assert(nick[0] == '<');
    }
    assert(plain.take(2) =~= "<@"@);
    assert(plain.last() == '>');
    assert(plain.subrange(2, plain.len() - 1) =~= id);
    assert(id[0] != '!') by {
        assert(crate::text::is_ascii_digit(id[0]));
    }
    assert(nick.take(2) =~= "<@"@);
    assert(nick.last() == '>');
    let inner = nick.subrange(2, nick.len() - 1);
    assert(inner[0] == '!');
    assert(inner.drop_first() =~= id);
}

/// Every id-taking option accepts a bare snowflake as itself; a channel
/// option accepts `<#ID>` and a role or mentionable option `<@&ID>`, each
/// giving `ID`.
pub proof fn lemma_id_option_forms(kind: u64, id: Seq<char>)
    requires
        is_snowflake_text(id),
    ensures
        (kind == APPLICATION_COMMAND_USER_KIND || kind == APPLICATION_COMMAND_CHANNEL_KIND || kind
            == APPLICATION_COMMAND_ROLE_KIND || kind == APPLICATION_COMMAND_MENTIONABLE_KIND)
            ==> option_value(kind, id) == Some(json_string(id)),
        kind == APPLICATION_COMMAND_CHANNEL_KIND ==> option_value(kind, "<#"@ + id + ">"@) == Some(
            json_string(id),
        ),
        (kind == APPLICATION_COMMAND_ROLE_KIND || kind == APPLICATION_COMMAND_MENTIONABLE_KIND)
            ==> option_value(kind, "<@&"@ + id + ">"@) == Some(json_string(id)),
{
    reveal_strlit("<#");
    reveal_strlit("<@&");
    reveal_strlit("<@");
    reveal_strlit(">");
    let channel = "<#"@ + id + ">"@;
    let role = "<@&"@ + id + ">"@;
    assert(!is_snowflake_text(channel)) by {
        assert(channel[0] == '<');
    }
    assert(!is_snowflake_text(role)) by {
        assert(role[0] == '<');
    }
    assert(channel.take(2) =~= "<#"@);
    assert(channel.last() == '>');
    assert(channel.subrange(2, channel.len() - 1) =~= id);
    assert(role.take(3) =~= "<@&"@);
    assert(role.last() == '>');
    assert(role.subrange(3, role.len() - 1) =~= id);
    assert(role.take(2) =~= "<@"@);
    let inner = role.subrange(2, role.len() - 1);
    assert(inner[0] == '&');
    assert(!is_snowflake_text(inner)) by {
        assert(!crate::text::is_ascii_digit(inner[0]));
    }
    assert(user_mention_id(role) is None);
}

} // verus!
