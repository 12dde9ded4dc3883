//! Client-side slash commands that Discord's own clients handle locally.
use crate::text::{
    all_white_space, chars_of, is_white_space, leading_word, push_chars, push_str, range_eq_str, skip_white_space,
    skip_word, slice_chars, string_of, trim_start,
};
use vstd::prelude::*;

verus! {

#[derive(Clone, Copy, Debug, PartialEq, Eq)]
pub enum BuiltinSlashCommand {
    Gif,
    Tenor,
    Tts,
    Me,
    Tableflip,
    Unflip,
    Shrug,
    Spoiler,
    Nick,
}

#[derive(Clone, Copy, Debug, PartialEq, Eq)]
pub struct BuiltinSlashCommandInfo {
    pub kind: BuiltinSlashCommand,
    pub name: &'static str,
    pub description: &'static str,
    pub replacement: &'static str,
}

#[derive(Clone, Debug, PartialEq, Eq)]
pub enum BuiltinSlashCommandSubmit {
    Message { content: String, tts: bool },
    Nickname { nickname: String },
    Unsupported { message: String },
}

#[derive(Clone, Debug, PartialEq, Eq)]
pub enum BuiltinSlashCommandParse {
    Ready(BuiltinSlashCommandSubmit),
    Incomplete,
    NotBuiltin,
}

/// What a submitted built-in command sends, over character sequences.
pub enum SubmitModel {
    Message { content: Seq<char>, tts: bool },
    Nickname { nickname: Seq<char> },
    Unsupported { message: Seq<char> },
}

pub enum ParseModel {
    Ready(SubmitModel),
    Incomplete,
    NotBuiltin,
}

impl View for BuiltinSlashCommandSubmit {
    type V = SubmitModel;

    open spec fn view(&self) -> SubmitModel {
        match self {
            BuiltinSlashCommandSubmit::Message { content, tts } => SubmitModel::Message {
                content: content@,
                tts: *tts,
            },
            BuiltinSlashCommandSubmit::Nickname { nickname } => SubmitModel::Nickname {
                nickname: nickname@,
            },
            BuiltinSlashCommandSubmit::Unsupported { message } => SubmitModel::Unsupported {
                message: message@,
            },
        }
    }
}

impl View for BuiltinSlashCommandParse {
    type V = ParseModel;

    open spec fn view(&self) -> ParseModel {
        match self {
            BuiltinSlashCommandParse::Ready(submit) => ParseModel::Ready(submit@),
            BuiltinSlashCommandParse::Incomplete => ParseModel::Incomplete,
            BuiltinSlashCommandParse::NotBuiltin => ParseModel::NotBuiltin,
        }
    }
}

/// The name each built-in command is typed as.
pub open spec fn builtin_name(kind: BuiltinSlashCommand) -> Seq<char> {
    match kind {
        BuiltinSlashCommand::Gif => "gif"@,
        BuiltinSlashCommand::Tenor => "tenor"@,
        BuiltinSlashCommand::Tts => "tts"@,
        BuiltinSlashCommand::Me => "me"@,
        BuiltinSlashCommand::Tableflip => "tableflip"@,
        BuiltinSlashCommand::Unflip => "unflip"@,
        BuiltinSlashCommand::Shrug => "shrug"@,
        BuiltinSlashCommand::Spoiler => "spoiler"@,
        BuiltinSlashCommand::Nick => "nick"@,
    }
}

/// The listing order of the built-in commands.
pub open spec fn builtin_order() -> Seq<BuiltinSlashCommand> {
    seq![
        BuiltinSlashCommand::Gif,
        BuiltinSlashCommand::Tenor,
        BuiltinSlashCommand::Tts,
        BuiltinSlashCommand::Me,
        BuiltinSlashCommand::Tableflip,
        BuiltinSlashCommand::Unflip,
        BuiltinSlashCommand::Shrug,
        BuiltinSlashCommand::Spoiler,
        BuiltinSlashCommand::Nick,
    ]
}

/// The built-in command typed as `name`, if any.
pub open spec fn builtin_named(name: Seq<char>) -> Option<BuiltinSlashCommand> {
    if name == "gif"@ {
        Some(BuiltinSlashCommand::Gif)
    } else if name == "tenor"@ {
        Some(BuiltinSlashCommand::Tenor)
    } else if name == "tts"@ {
        Some(BuiltinSlashCommand::Tts)
    } else if name == "me"@ {
        Some(BuiltinSlashCommand::Me)
    } else if name == "tableflip"@ {
        Some(BuiltinSlashCommand::Tableflip)
    } else if name == "unflip"@ {
        Some(BuiltinSlashCommand::Unflip)
    } else if name == "shrug"@ {
        Some(BuiltinSlashCommand::Shrug)
    } else if name == "spoiler"@ {
        Some(BuiltinSlashCommand::Spoiler)
    } else if name == "nick"@ {
        Some(BuiltinSlashCommand::Nick)
    } else {
        None
    }
}

pub open spec fn tableflip_face() -> Seq<char> {
    "(╯°□°）╯︵ ┻━┻"@
}

pub open spec fn unflip_face() -> Seq<char> {
    "┬─┬ ノ( ゜-゜ノ)"@
}

pub open spec fn shrug_face() -> Seq<char> {
    "¯\\_(ツ)_/¯"@
}

pub open spec fn gif_unsupported_message() -> Seq<char> {
    "GIF slash commands are not supported in Concord yet"@
}

/// `message` followed by a space and `suffix`, or `suffix` alone.
pub open spec fn append_optional(message: Seq<char>, suffix: Seq<char>) -> Seq<char> {
    if message.len() == 0 {
        suffix
    } else {
        message + " "@ + suffix
    }
}

/// What a built-in command does with its (already left-trimmed) argument.
pub open spec fn builtin_submission(kind: BuiltinSlashCommand, argument: Seq<char>) -> ParseModel {
    let blank = all_white_space(argument);
    match kind {
        BuiltinSlashCommand::Gif | BuiltinSlashCommand::Tenor => if blank {
            ParseModel::Incomplete
        } else {
            ParseModel::Ready(SubmitModel::Unsupported { message: gif_unsupported_message() })
        },
        BuiltinSlashCommand::Tts => if blank {
            ParseModel::Incomplete
        } else {
            ParseModel::Ready(SubmitModel::Message { content: argument, tts: true })
        },
        BuiltinSlashCommand::Me => if blank {
            ParseModel::Incomplete
        } else {
            ParseModel::Ready(
                SubmitModel::Message { content: "_"@ + argument + "_"@, tts: false },
            )
        },
        BuiltinSlashCommand::Tableflip => ParseModel::Ready(
            SubmitModel::Message { content: append_optional(argument, tableflip_face()), tts: false },
        ),
        BuiltinSlashCommand::Unflip => ParseModel::Ready(
            SubmitModel::Message { content: append_optional(argument, unflip_face()), tts: false },
        ),
        BuiltinSlashCommand::Shrug => ParseModel::Ready(
            SubmitModel::Message { content: append_optional(argument, shrug_face()), tts: false },
        ),
        BuiltinSlashCommand::Spoiler => if blank {
            ParseModel::Incomplete
        } else {
            ParseModel::Ready(
                SubmitModel::Message { content: "||"@ + argument + "||"@, tts: false },
            )
        },
        BuiltinSlashCommand::Nick => ParseModel::Ready(
            SubmitModel::Nickname { nickname: argument },
        ),
    }
}

/// How composer content is read as a built-in command: a leading `/`, then the
/// command name (white space around it is ignored), then the rest as argument.
pub open spec fn parse_builtin(content: Seq<char>) -> ParseModel {
    if content.len() == 0 || content[0] != '/' {
        ParseModel::NotBuiltin
    } else {
        let rest = trim_start(content.drop_first());
        if rest.len() == 0 {
            ParseModel::NotBuiltin
        } else {
            let name = rest.take(leading_word(rest) as int);
            let argument = trim_start(rest.skip(leading_word(rest) as int));
            match builtin_named(name) {
                None => ParseModel::NotBuiltin,
                Some(kind) => builtin_submission(kind, argument),
            }
        }
    }
}

fn info(
    kind: BuiltinSlashCommand,
    name: &'static str,
    description: &'static str,
    replacement: &'static str,
) -> (r: BuiltinSlashCommandInfo)
    ensures
        r.kind == kind,
        r.name@ == name@,
        r.description@ == description@,
        r.replacement@ == replacement@,
{
    BuiltinSlashCommandInfo { kind, name, description, replacement }
}

/// The built-in commands, in the order the composer offers them.
pub fn builtin_slash_commands() -> (r: Vec<BuiltinSlashCommandInfo>)
    ensures
        r@.len() == builtin_order().len(),
        forall|i: int|
            0 <= i < r@.len() ==> (#[trigger] r@[i]).kind == builtin_order()[i] && r@[i].name@
                == builtin_name(r@[i].kind) && r@[i].replacement@ == "/"@ + builtin_name(
                r@[i].kind,
            ) + " "@,
{
    let mut r = Vec::new();
    r.push(info(BuiltinSlashCommand::Gif, "gif", "Search for a GIF", "/gif "));
    r.push(info(BuiltinSlashCommand::Tenor, "tenor", "Search Tenor GIFs", "/tenor "));
    r.push(info(BuiltinSlashCommand::Tts, "tts", "Send a text-to-speech message", "/tts "));
    r.push(info(BuiltinSlashCommand::Me, "me", "Send an italic action message", "/me "));
    r.push(
        info(
            BuiltinSlashCommand::Tableflip,
            "tableflip",
            "Add a table flip face ((╯°□°）╯︵ ┻━┻)",
            "/tableflip ",
        ),
    );
    r.push(
        info(
            BuiltinSlashCommand::Unflip,
            "unflip",
            "Add a table unflip face (┬─┬ ノ( ゜-゜ノ))",
            "/unflip ",
        ),
    );
    r.push(info(BuiltinSlashCommand::Shrug, "shrug", "Add a shrug face (¯\\_(ツ)_/¯)", "/shrug "));
    r.push(info(BuiltinSlashCommand::Spoiler, "spoiler", "Send spoiler text", "/spoiler "));
    r.push(
        info(BuiltinSlashCommand::Nick, "nick", "Change or clear your server nickname", "/nick "),
    );
    proof {
        reveal_strlit("gif");
        reveal_strlit("tenor");
        reveal_strlit("tts");
        reveal_strlit("me");
        reveal_strlit("tableflip");
        reveal_strlit("unflip");
        reveal_strlit("shrug");
        reveal_strlit("spoiler");
        reveal_strlit("nick");
        reveal_strlit("/gif ");
        reveal_strlit("/tenor ");
        reveal_strlit("/tts ");
        reveal_strlit("/me ");
        reveal_strlit("/tableflip ");
        reveal_strlit("/unflip ");
        reveal_strlit("/shrug ");
        reveal_strlit("/spoiler ");
        reveal_strlit("/nick ");
        reveal_strlit("/");
        reveal_strlit(" ");
        assert("/gif "@ =~= "/"@ + "gif"@ + " "@);
        assert("/tenor "@ =~= "/"@ + "tenor"@ + " "@);
        assert("/tts "@ =~= "/"@ + "tts"@ + " "@);
        assert("/me "@ =~= "/"@ + "me"@ + " "@);
        assert("/tableflip "@ =~= "/"@ + "tableflip"@ + " "@);
        assert("/unflip "@ =~= "/"@ + "unflip"@ + " "@);
        assert("/shrug "@ =~= "/"@ + "shrug"@ + " "@);
        assert("/spoiler "@ =~= "/"@ + "spoiler"@ + " "@);
        assert("/nick "@ =~= "/"@ + "nick"@ + " "@);
    }
    r
}

/// The command named `chars[from..to]`, if that names a built-in command.
fn builtin_named_range(chars: &Vec<char>, from: usize, to: usize) -> (r: Option<
    BuiltinSlashCommand,
>)
    requires
        from <= to <= chars.len(),
    ensures
        r == builtin_named(chars@.subrange(from as int, to as int)),
{
    if range_eq_str(chars, from, to, "gif") {
        Some(BuiltinSlashCommand::Gif)
    } else if range_eq_str(chars, from, to, "tenor") {
        Some(BuiltinSlashCommand::Tenor)
    } else if range_eq_str(chars, from, to, "tts") {
        Some(BuiltinSlashCommand::Tts)
    } else if range_eq_str(chars, from, to, "me") {
        Some(BuiltinSlashCommand::Me)
    } else if range_eq_str(chars, from, to, "tableflip") {
        Some(BuiltinSlashCommand::Tableflip)
    } else if range_eq_str(chars, from, to, "unflip") {
        Some(BuiltinSlashCommand::Unflip)
    } else if range_eq_str(chars, from, to, "shrug") {
        Some(BuiltinSlashCommand::Shrug)
    } else if range_eq_str(chars, from, to, "spoiler") {
        Some(BuiltinSlashCommand::Spoiler)
    } else if range_eq_str(chars, from, to, "nick") {
        Some(BuiltinSlashCommand::Nick)
    } else {
        None
    }
}

/// Splits `input` into a command name and its argument: the first word after
/// any leading white space, and the rest with its leading white space removed.
/// `None` when `input` is blank.
pub fn split_command_name(input: &Vec<char>) -> (r: Option<(Vec<char>, Vec<char>)>)
    ensures
        trim_start(input@).len() == 0 ==> r is None,
        trim_start(input@).len() != 0 ==> (r matches Some((name, argument)) && {
            let t = trim_start(input@);
            &&& name@ == t.take(leading_word(t) as int)
            &&& argument@ == trim_start(t.skip(leading_word(t) as int))
        }),
{
    let start = skip_white_space(input, 0);
    proof {
        assert(input@.skip(0) == input@);
    }
    if start == input.len() {
        return None;
    }
    let name_end = skip_word(input, start);
    let arg_start = skip_white_space(input, name_end);
    let name = slice_chars(input, start, name_end);
    let argument = slice_chars(input, arg_start, input.len());
    proof {
        let t = trim_start(input@);
        assert(t == input@.skip(start as int));
        assert(t.take(leading_word(t) as int) =~= input@.subrange(start as int, name_end as int));
        assert(t.skip(leading_word(t) as int) =~= input@.skip(name_end as int));
        assert(trim_start(t.skip(leading_word(t) as int)) =~= input@.subrange(
            arg_start as int,
            input.len() as int,
        ));
    }
    Some((name, argument))
}

/// The argument, unless it is blank.
pub fn required_argument(argument: &Vec<char>) -> (r: Option<&Vec<char>>)
    ensures
        r is Some <==> !all_white_space(argument@),
        r matches Some(a) ==> a@ == argument@,
{
    let end = skip_white_space(argument, 0);
    if end == argument.len() {
        None
    } else {
        Some(argument)
    }
}

/// `message` followed by a space and `suffix`, or just `suffix` when there is no message.
pub fn append_optional_message(message: &Vec<char>, suffix: &str) -> (r: String)
    ensures
        r@ == append_optional(message@, suffix@),
{
    let mut out = String::new();
    if message.len() == 0 {
        push_str(&mut out, suffix);
    } else {
        push_chars(&mut out, message);
        out.push(' ');
        push_str(&mut out, suffix);
        proof {
            reveal_strlit(" ");
            assert(out@ =~= message@ + " "@ + suffix@);
        }
    }
    out
}

fn wrapped(prefix: &str, argument: &Vec<char>, suffix: &str) -> (r: String)
    ensures
        r@ == prefix@ + argument@ + suffix@,
{
    let mut out = String::new();
    push_str(&mut out, prefix);
    push_chars(&mut out, argument);
    push_str(&mut out, suffix);
    out
}

fn ready_message(content: String, tts: bool) -> (r: BuiltinSlashCommandParse)
    ensures
        r@ == ParseModel::Ready(SubmitModel::Message { content: content@, tts }),
{
    BuiltinSlashCommandParse::Ready(BuiltinSlashCommandSubmit::Message { content, tts })
}

/// Reads composer content as a built-in slash command.
pub fn parse_builtin_slash_command(content: &str) -> (r: BuiltinSlashCommandParse)
    ensures
        r@ == parse_builtin(content@),
{
    let chars = chars_of(content);
    if chars.len() == 0 || chars[0] != '/' {
        return BuiltinSlashCommandParse::NotBuiltin;
    }
    let rest = slice_chars(&chars, 1, chars.len());
    proof {
        assert(rest@ =~= content@.drop_first());
    }
    let (name, argument) = match split_command_name(&rest) {
        Some(parts) => parts,
        None => return BuiltinSlashCommandParse::NotBuiltin,
    };
    let kind = match builtin_named_range(&name, 0, name.len()) {
        Some(kind) => kind,
        None => {
            proof {
                assert(name@.subrange(0, name@.len() as int) =~= name@);
            }
            return BuiltinSlashCommandParse::NotBuiltin;
        },
    };
    proof {
        assert(name@.subrange(0, name@.len() as int) =~= name@);
    }
    match kind {
        BuiltinSlashCommand::Gif | BuiltinSlashCommand::Tenor => match required_argument(
            &argument,
        ) {
            None => BuiltinSlashCommandParse::Incomplete,
            Some(_) => {
                let message = String::from_str("GIF slash commands are not supported in Concord yet");
                BuiltinSlashCommandParse::Ready(BuiltinSlashCommandSubmit::Unsupported { message })
            },
        },
        BuiltinSlashCommand::Tts => match required_argument(&argument) {
            None => BuiltinSlashCommandParse::Incomplete,
            Some(message) => ready_message(string_of(message), true),
        },
        BuiltinSlashCommand::Me => match required_argument(&argument) {
            None => BuiltinSlashCommandParse::Incomplete,
            Some(message) => ready_message(wrapped("_", message, "_"), false),
        },
        BuiltinSlashCommand::Tableflip => ready_message(
            append_optional_message(&argument, "(╯°□°）╯︵ ┻━┻"),
            false,
        ),
        BuiltinSlashCommand::Unflip => ready_message(
            append_optional_message(&argument, "┬─┬ ノ( ゜-゜ノ)"),
            false,
        ),
        BuiltinSlashCommand::Shrug => ready_message(
            append_optional_message(&argument, "¯\\_(ツ)_/¯"),
            false,
        ),
        BuiltinSlashCommand::Spoiler => match required_argument(&argument) {
            None => BuiltinSlashCommandParse::Incomplete,
            Some(message) => ready_message(wrapped("||", message, "||"), false),
        },
        BuiltinSlashCommand::Nick => BuiltinSlashCommandParse::Ready(
            BuiltinSlashCommandSubmit::Nickname { nickname: string_of(&argument) },
        ),
    }
}

/// Every listed built-in command is recognised by the parser under its listed
/// name, and no two commands share a name.
pub proof fn lemma_listed_names_parse(kind: BuiltinSlashCommand)
    ensures
        builtin_named(builtin_name(kind)) == Some(kind),
{
    reveal_strlit("gif");
    reveal_strlit("tenor");
    reveal_strlit("tts");
    reveal_strlit("me");
    reveal_strlit("tableflip");
    reveal_strlit("unflip");
    reveal_strlit("shrug");
    reveal_strlit("spoiler");
    reveal_strlit("nick");
    let n = builtin_name(kind);
    match kind {
        BuiltinSlashCommand::Gif => {},
        BuiltinSlashCommand::Tenor => {
            assert(n[0] != "gif"@[0]);
        },
        BuiltinSlashCommand::Tts => {
            assert(n[0] != "gif"@[0]);
            assert(n.len() != "tenor"@.len());
        },
        BuiltinSlashCommand::Me => {
            assert(n.len() != "gif"@.len());
            assert(n.len() != "tenor"@.len());
            assert(n.len() != "tts"@.len());
        },
        BuiltinSlashCommand::Tableflip => {
            assert(n.len() != "gif"@.len());
            assert(n.len() != "tenor"@.len());
            assert(n.len() != "tts"@.len());
            assert(n.len() != "me"@.len());
        },
        BuiltinSlashCommand::Unflip => {
            assert(n.len() != "gif"@.len());
            assert(n.len() != "tenor"@.len());
            assert(n.len() != "tts"@.len());
            assert(n.len() != "me"@.len());
            assert(n.len() != "tableflip"@.len());
        },
        BuiltinSlashCommand::Shrug => {
            assert(n.len() != "gif"@.len());
            assert(n[0] != "tenor"@[0]);
            assert(n.len() != "tts"@.len());
            assert(n.len() != "me"@.len());
            assert(n.len() != "tableflip"@.len());
            assert(n.len() != "unflip"@.len());
        },
        BuiltinSlashCommand::Spoiler => {
            assert(n.len() != "gif"@.len());
            assert(n.len() != "tenor"@.len());
            assert(n.len() != "tts"@.len());
            assert(n.len() != "me"@.len());
            assert(n.len() != "tableflip"@.len());
            assert(n.len() != "unflip"@.len());
            assert(n.len() != "shrug"@.len());
        },
        BuiltinSlashCommand::Nick => {
            assert(n.len() != "gif"@.len());
            assert(n.len() != "tenor"@.len());
            assert(n.len() != "tts"@.len());
            assert(n.len() != "me"@.len());
            assert(n.len() != "tableflip"@.len());
            assert(n.len() != "unflip"@.len());
            assert(n.len() != "shrug"@.len());
            assert(n.len() != "spoiler"@.len());
        },
    }
}

/// Content typed as `/`, a command's name, a space and a message that does
/// not start with white space is that command applied to the message.
proof fn lemma_parse_typed_command(kind: BuiltinSlashCommand, message: Seq<char>)
    requires
        message.len() == 0 || !is_white_space(message[0]),
    ensures
        parse_builtin("/"@ + builtin_name(kind) + " "@ + message) == builtin_submission(
            kind,
            message,
        ),
{
    reveal_strlit("/");
    reveal_strlit(" ");
    reveal_strlit("gif");
    reveal_strlit("tenor");
    reveal_strlit("tts");
    reveal_strlit("me");
    reveal_strlit("tableflip");
    reveal_strlit("unflip");
    reveal_strlit("shrug");
    reveal_strlit("spoiler");
    reveal_strlit("nick");
    let name = builtin_name(kind);
    let content = "/"@ + name + " "@ + message;
    let s = content.drop_first();
    assert(s =~= name + " "@ + message);
    assert forall|i: int| 0 <= i < name.len() implies !is_white_space(#[trigger] name[i]) by {
        if i == 0 {
        } else if i == 1 {
        } else if i == 2 {
        } else if i == 3 {
        } else if i == 4 {
        } else if i == 5 {
        } else if i == 6 {
        } else if i == 7 {
        } else {
        }
    }
    assert forall|i: int| 0 <= i < name.len() implies !is_white_space(#[trigger] s[i]) by {
        assert(s[i] == name[i]);
    }
    assert(s[name.len() as int] == ' ');
    crate::text::lemma_leading_ws_exact(s, 0);
    assert(trim_start(s) =~= s);
    crate::text::lemma_leading_word_exact(s, name.len() as int);
    assert(s.take(name.len() as int) =~= name);
    let t = s.skip(name.len() as int);
    assert(t =~= " "@ + message);
    if message.len() > 0 {
        assert(t[1] == message[0]);
    }
    crate::text::lemma_leading_ws_exact(t, 1);
    assert(trim_start(t) =~= message);
    lemma_listed_names_parse(kind);
}

/// `/tableflip`, `/unflip` and `/shrug` keep the user's message: typed with a
/// message, they send the message, a space and the face; typed alone, the
/// face alone. Nothing is sent as text-to-speech.
pub proof fn lemma_face_commands_keep_the_message(kind: BuiltinSlashCommand, message: Seq<char>)
    requires
        kind is Tableflip || kind is Unflip || kind is Shrug,
        message.len() == 0 || !is_white_space(message[0]),
    ensures
        ({
            let face = match kind {
                BuiltinSlashCommand::Tableflip => "(╯°□°）╯︵ ┻━┻"@,
                BuiltinSlashCommand::Unflip => "┬─┬ ノ( ゜-゜ノ)"@,
                _ => "¯\\_(ツ)_/¯"@,
            };
            parse_builtin("/"@ + builtin_name(kind) + " "@ + message) == ParseModel::Ready(
                SubmitModel::Message {
                    content: if message.len() == 0 {
                        face
                    } else {
                        message + " "@ + face
                    },
                    tts: false,
                },
            )
        }),
{
    lemma_parse_typed_command(kind, message);
}

/// The commands that need a message wait for one (`Incomplete`) when typed
/// alone; with a message, `/tts` sends it as text-to-speech, `/me` in
/// underscores, `/spoiler` between `||` marks, `/nick` asks for it as the new
/// nickname, and `/gif` and `/tenor` answer that they are not supported.
pub proof fn lemma_message_commands(kind: BuiltinSlashCommand, message: Seq<char>)
    requires
        !(kind is Tableflip || kind is Unflip || kind is Shrug),
        message.len() == 0 || !is_white_space(message[0]),
    ensures
        ({
            let r = parse_builtin("/"@ + builtin_name(kind) + " "@ + message);
            &&& kind is Nick ==> r == ParseModel::Ready(SubmitModel::Nickname { nickname: message })
            &&& (!(kind is Nick) && message.len() == 0) ==> r == ParseModel::Incomplete
            &&& message.len() != 0 ==> r == match kind {
                BuiltinSlashCommand::Tts => ParseModel::Ready(
                    SubmitModel::Message { content: message, tts: true },
                ),
                BuiltinSlashCommand::Me => ParseModel::Ready(
                    SubmitModel::Message { content: "_"@ + message + "_"@, tts: false },
                ),
                BuiltinSlashCommand::Spoiler => ParseModel::Ready(
                    SubmitModel::Message { content: "||"@ + message + "||"@, tts: false },
                ),
                BuiltinSlashCommand::Nick => ParseModel::Ready(
                    SubmitModel::Nickname { nickname: message },
                ),
                _ => ParseModel::Ready(
                    SubmitModel::Unsupported {
                        message: "GIF slash commands are not supported in Concord yet"@,
                    },
                ),
            }
        }),
{
    lemma_parse_typed_command(kind, message);
    if message.len() != 0 {
        assert(!all_white_space(message));
    }
}

} // verus!
