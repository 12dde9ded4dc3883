//! Links and media: which links may be handed to an opener or a player, the
//! commands that do so, and the names downloads are saved under.
use crate::text::{chars_of, decimal, is_control, lemma_trim_idempotent, push_decimal, push_str, string_of, string_of_range, trim, trim_chars};
use crate::json::{
    json_value_number_field, json_value_str_field, json_value_u64_field, parse_json_bytes,
    parsed_value, value_number_field, value_str_field, value_u64_field,
};
use std::io;
use vstd::prelude::*;

verus! {

#[verifier::external_type_specification]
#[verifier::external_body]
pub struct ExIoError(io::Error);

/// The kinds of `io::Error` the library tells apart.
#[derive(Clone, Copy, Debug, PartialEq, Eq)]
pub enum IoErrorKind {
    NotFound,
    InvalidInput,
    Other,
}

/// The kind of an `io::Error` (`io::Error::kind`), as the library tells
/// kinds apart.
pub uninterp spec fn io_error_kind(error: io::Error) -> IoErrorKind;

/// `io::Error::kind`, told apart as `NotFound`, `InvalidInput` or another
/// kind. The contract only names the result.
#[verifier::external_body]
fn error_kind_of(error: &io::Error) -> (r: IoErrorKind)
    ensures
        r == io_error_kind(*error),
{
    match error.kind() {
        io::ErrorKind::NotFound => IoErrorKind::NotFound,
        io::ErrorKind::InvalidInput => IoErrorKind::InvalidInput,
        _ => IoErrorKind::Other,
    }
}

/// `io::Error::new(io::ErrorKind::InvalidInput, message)`: an error of kind
/// `InvalidInput` (its message is not stated).
#[verifier::external_body]
fn invalid_input_error(message: &'static str) -> (r: io::Error)
    ensures
        io_error_kind(r) == IoErrorKind::InvalidInput,
{
    io::Error::new(io::ErrorKind::InvalidInput, message)
}

/// `io::Error::new(io::ErrorKind::NotFound, message)`: an error of kind
/// `NotFound` (its message is not stated).
#[verifier::external_body]
fn not_found_error(message: &'static str) -> (r: io::Error)
    ensures
        io_error_kind(r) == IoErrorKind::NotFound,
{
    io::Error::new(io::ErrorKind::NotFound, message)
}

/// The error reported when starting the media player failed: a missing
/// program (`NotFound`) becomes a `NotFound` error that says `mpv` is
/// required; any other error is reported as it is.
pub fn media_player_spawn_error(error: io::Error) -> (r: io::Error)
    ensures
        io_error_kind(error) == IoErrorKind::NotFound ==> io_error_kind(r) == IoErrorKind::NotFound,
        io_error_kind(error) != IoErrorKind::NotFound ==> r == error,
{
    match error_kind_of(&error) {
        IoErrorKind::NotFound => not_found_error(
            "mpv is required for media playback; install mpv and make sure it is on PATH",
        ),
        _ => error,
    }
}

/// ASCII letters in lower case, every other character unchanged.
pub open spec fn ascii_lower(c: char) -> char {
    if 'A' <= c <= 'Z' {
        ((c as u32) + 32) as char
    } else {
        c
    }
}

/// `s` starts with `prefix`, ASCII letters compared without case.
pub open spec fn starts_with_ignore_case(s: Seq<char>, prefix: Seq<char>) -> bool {
    prefix.len() <= s.len() && forall|i: int| 0 <= i < prefix.len() ==> ascii_lower(s[i]) == prefix[i]
}

pub open spec fn http_prefix() -> Seq<char> {
    seq!['h', 't', 't', 'p', ':', '/', '/']
}

pub open spec fn https_prefix() -> Seq<char> {
    seq!['h', 't', 't', 'p', 's', ':', '/', '/']
}

/// A link that may be handed to an opener or a media player: the link
/// trimmed, when it is a web link (`http://` or `https://`, any letter case,
/// with something after it); `None` otherwise.
pub open spec fn openable_url(url: Seq<char>) -> Option<Seq<char>> {
    let t = trim(url);
    if (starts_with_ignore_case(t, http_prefix()) && t.len() > http_prefix().len()) || (
    starts_with_ignore_case(t, https_prefix()) && t.len() > https_prefix().len()) {
        Some(t)
    } else {
        None
    }
}

/// A link accepted for opening is accepted again as it was given back: the
/// check is settled after one pass.
pub proof fn lemma_openable_url_settled(url: Seq<char>)
    ensures
        openable_url(url) matches Some(t) ==> openable_url(t) == Some(t),
{
    lemma_trim_idempotent(url);
}

fn lower_ascii(c: char) -> (r: char)
    ensures
        r == ascii_lower(c),
{
    if 'A' <= c && c <= 'Z' {
        let b = c as u8;
        proof {
            assert(b == c as u32);
        }
        (b + 32) as char
    } else {
        c
    }
}

fn starts_with_prefix_ignore_case(s: &Vec<char>, prefix: &Vec<char>) -> (r: bool)
    ensures
        r == starts_with_ignore_case(s@, prefix@),
{
    if prefix.len() > s.len() {
        return false;
    }
    let mut i: usize = 0;
    while i < prefix.len()
        invariant
            prefix.len() <= s.len(),
            i <= prefix.len(),
            forall|j: int| 0 <= j < i ==> ascii_lower(s@[j]) == prefix@[j],
        decreases prefix.len() - i,
    {
        if lower_ascii(s[i]) != prefix[i] {
            return false;
        }
        i = i + 1;
    }
    true
}

/// The link trimmed, when it is a web link that may be opened.
pub fn normalize_openable_url(url: &str) -> (r: Option<String>)
    ensures
        match r {
            Some(u) => openable_url(url@) == Some(u@),
            None => openable_url(url@) is None,
        },
{
    let chars = chars_of(url);
    let t = trim_chars(&chars);
    let http = chars_of("http://");
    let https = chars_of("https://");
    proof {
        reveal_strlit("http://");
        reveal_strlit("https://");
        assert(http@ =~= http_prefix());
        assert(https@ =~= https_prefix());
    }
    if (starts_with_prefix_ignore_case(&t, &http) && t.len() > http.len()) || (
    starts_with_prefix_ignore_case(&t, &https) && t.len() > https.len()) {
        Some(string_of(&t))
    } else {
        None
    }
}

/// The program and arguments that play a link.
#[derive(Debug, PartialEq, Eq)]
pub struct MediaPlayerCommandSpec {
    pub program: &'static str,
    pub args: Vec<String>,
}

/// The texts of a list of arguments.
pub open spec fn args_view(args: Seq<String>) -> Seq<Seq<char>> {
    args.map_values(|a: String| a@)
}

/// The arguments the media player gets: no terminal, the JSON IPC server
/// when one is given, then `--` and the link, so that the link is never read
/// as an option.
pub open spec fn media_player_args(url: Seq<char>, ipc_server: Option<Seq<char>>) -> Seq<Seq<char>> {
    seq!["--no-terminal"@] + match ipc_server {
        Some(s) => seq!["--input-ipc-server="@ + s],
        None => seq![],
    } + seq!["--"@, url]
}

fn push_arg(args: &mut Vec<String>, arg: String)
    ensures
        args_view(final(args)@) == args_view(old(args)@).push(arg@),
{
    args.push(arg);
    proof {
        assert(args_view(args@) =~= args_view(old(args)@).push(arg@));
    }
}

/// The `mpv` command that plays `url`, with its JSON IPC server at
/// `ipc_server` when one is given; an `InvalidInput` error, before anything
/// is started, when the link is not a web link.
pub fn media_player_command_spec_for_url_with_ipc(url: &str, ipc_server: Option<&str>) -> (r: io::Result<
    MediaPlayerCommandSpec,
>)
    ensures
        r is Err <==> openable_url(url@) is None,
        r matches Err(e) ==> io_error_kind(e) == IoErrorKind::InvalidInput,
        r matches Ok(spec) ==> spec.program@ == "mpv"@ && args_view(spec.args@) == media_player_args(
            openable_url(url@)->0,
            match ipc_server {
                Some(s) => Some(s@),
                None => None,
            },
        ),
{
    let link = match normalize_openable_url(url) {
        Some(u) => u,
        None => return Err(invalid_input_error("unsupported media URL scheme")),
    };
    let mut args: Vec<String> = Vec::new();
    push_arg(&mut args, "--no-terminal".to_string());
    match ipc_server {
        Some(server) => {
            let mut arg = String::new();
            push_str(&mut arg, "--input-ipc-server=");
            push_str(&mut arg, server);
            push_arg(&mut args, arg);
        },
        None => {},
    }
    push_arg(&mut args, "--".to_string());
    push_arg(&mut args, link);
    proof {
        assert(args_view(args@) =~= media_player_args(
            openable_url(url@)->0,
            match ipc_server {
                Some(s) => Some(s@),
                None => None,
            },
        ));
    }
    Ok(MediaPlayerCommandSpec { program: "mpv", args })
}

/// The `mpv` command that plays `url`, without an IPC server.
pub fn media_player_command_spec_for_url(url: &str) -> (r: io::Result<MediaPlayerCommandSpec>)
    ensures
        r is Err <==> openable_url(url@) is None,
        r matches Err(e) ==> io_error_kind(e) == IoErrorKind::InvalidInput,
        r matches Ok(spec) ==> spec.program@ == "mpv"@ && args_view(spec.args@) == media_player_args(
            openable_url(url@)->0,
            None,
        ),
{
    media_player_command_spec_for_url_with_ipc(url, None)
}

/// The program and arguments that open a link in the system's handler.
#[derive(Debug, PartialEq, Eq)]
pub struct UrlOpenCommandSpec {
    pub program: &'static str,
    pub args: Vec<String>,
}

/// The kinds of system a link opener is chosen for.
#[derive(Clone, Copy, Debug, PartialEq, Eq)]
pub enum OpenerPlatform {
    MacOs,
    Windows,
    OtherUnix,
}

/// The Windows opener: `rundll32 url.dll,FileProtocolHandler URL`, which
/// hands the link over without a command shell reading it.
pub fn windows_open_url_command_spec(url: &str) -> (r: UrlOpenCommandSpec)
    ensures
        r.program@ == "rundll32"@,
        args_view(r.args@) == seq!["url.dll,FileProtocolHandler"@, url@],
{
    let mut args: Vec<String> = Vec::new();
    push_arg(&mut args, "url.dll,FileProtocolHandler".to_string());
    push_arg(&mut args, url.to_string());
    proof {
        assert(args_view(args@) =~= seq!["url.dll,FileProtocolHandler"@, url@]);
    }
    UrlOpenCommandSpec { program: "rundll32", args }
}

/// The opener of the given kind of system: `open` on macOS, the Windows
/// opener on Windows, `xdg-open` elsewhere; the link is its one argument.
pub fn current_open_url_command_spec(platform: OpenerPlatform, url: &str) -> (r: UrlOpenCommandSpec)
    ensures
        match platform {
            OpenerPlatform::MacOs => r.program@ == "open"@ && args_view(r.args@) == seq![url@],
            OpenerPlatform::Windows => r.program@ == "rundll32"@ && args_view(r.args@) == seq![
                "url.dll,FileProtocolHandler"@,
                url@,
            ],
            OpenerPlatform::OtherUnix => r.program@ == "xdg-open"@ && args_view(r.args@) == seq![url@],
        },
{
    match platform {
        OpenerPlatform::MacOs => {
            let mut args: Vec<String> = Vec::new();
            push_arg(&mut args, url.to_string());
            proof {
                assert(args_view(args@) =~= seq![url@]);
            }
            UrlOpenCommandSpec { program: "open", args }
        },
        OpenerPlatform::Windows => windows_open_url_command_spec(url),
        OpenerPlatform::OtherUnix => {
            let mut args: Vec<String> = Vec::new();
            push_arg(&mut args, url.to_string());
            proof {
                assert(args_view(args@) =~= seq![url@]);
            }
            UrlOpenCommandSpec { program: "xdg-open", args }
        },
    }
}

/// The link an opener may be started with: the web link, trimmed; an
/// `InvalidInput` error, before any opener is started, for any other link.
pub fn open_url(url: &str) -> (r: io::Result<String>)
    ensures
        r is Err <==> openable_url(url@) is None,
        r matches Err(e) ==> io_error_kind(e) == IoErrorKind::InvalidInput,
        r matches Ok(u) ==> openable_url(url@) == Some(u@),
{
    match normalize_openable_url(url) {
        Some(u) => Ok(u),
        None => Err(invalid_input_error("unsupported URL scheme")),
    }
}

/// The label a playback is reported under: `media` when none is given.
pub fn media_playback_label(label: &str) -> (r: &str)
    ensures
        r@ == if label@.len() == 0 {
            "media"@
        } else {
            label@
        },
{
    if label.is_empty() {
        "media"
    } else {
        label
    }
}

/// What `mpv` answered for the window id property.
#[derive(Clone, Debug, PartialEq, Eq)]
pub enum MpvWindowIdData {
    /// A number that fits in `i64` or `u64`, with whether it is non-zero.
    Number { nonzero: bool },
    /// A string.
    Text(String),
    /// Null, a number outside both ranges, or anything else.
    Other,
}

/// Whether an `mpv` reply to the window id request `request_id` says that
/// the window is up: `None` for a reply to another request (or none), else
/// whether it succeeded with a non-zero id.
pub open spec fn window_readiness(
    reply_request_id: Option<u64>,
    error: Option<Seq<char>>,
    data: MpvWindowIdData,
    request_id: u64,
) -> Option<bool> {
    if reply_request_id != Some(request_id) {
        None
    } else {
        Some(
            error == Some("success"@) && match data {
                MpvWindowIdData::Number { nonzero } => nonzero,
                MpvWindowIdData::Text(id) => id@.len() > 0 && id@ != "0"@,
                MpvWindowIdData::Other => false,
            },
        )
    }
}

/// Reads an `mpv` reply to the window id request `request_id`, given its
/// `request_id`, `error` and `data` fields.
pub fn mpv_window_id_readiness(
    reply_request_id: Option<u64>,
    error: Option<&str>,
    data: &MpvWindowIdData,
    request_id: u64,
) -> (r: Option<bool>)
    ensures
        r == window_readiness(
            reply_request_id,
            match error {
                Some(e) => Some(e@),
                None => None,
            },
            *data,
            request_id,
        ),
{
    match reply_request_id {
        Some(id) => {
            if id != request_id {
                return None;
            }
        },
        None => return None,
    }
    let success = match error {
        Some(e) => {
            let chars = chars_of(e);
            let lit = chars_of("success");
            crate::text::chars_eq(&chars, &lit)
        },
        None => false,
    };
    let data_ready = match data {
        MpvWindowIdData::Number { nonzero } => *nonzero,
        MpvWindowIdData::Text(id) => {
            let chars = chars_of(id.as_str());
            let zero = chars_of("0");
            chars.len() > 0 && !crate::text::chars_eq(&chars, &zero)
        },
        MpvWindowIdData::Other => false,
    };
    Some(success && data_ready)
}

/// Whether the window id field of an `mpv` reply names a window: a number
/// (read as `i64` or `u64`) other than zero, or a string that is neither
/// empty nor `0`.
pub open spec fn window_id_names_window(
    number: Option<(Option<i64>, Option<u64>)>,
    text: Option<Seq<char>>,
) -> bool {
    match number {
        Some((i, u)) => (i matches Some(v) && v != 0) || (u matches Some(v) && v != 0),
        None => match text {
            Some(t) => t.len() > 0 && t != "0"@,
            None => false,
        },
    }
}

/// What an `mpv` JSON IPC reply line says of the window id request
/// `request_id`: `None` when the line holds no JSON document or answers
/// another request (or names none), else whether it reports success with a
/// window id.
pub open spec fn line_readiness(line: Seq<u8>, request_id: u64) -> Option<bool> {
    match parsed_value(line) {
        None => None,
        Some(v) => if value_u64_field(v, "request_id"@) != Some(request_id) {
            None
        } else {
            Some(
                value_str_field(v, "error"@) == Some("success"@) && window_id_names_window(
                    value_number_field(v, "data"@),
                    value_str_field(v, "data"@),
                ),
            )
        },
    }
}

/// Reads an `mpv` JSON IPC reply line to the window id request
/// `request_id`: `None` when the line is not a JSON document or answers
/// another request (or names none), else whether it reports success with a
/// non-zero window id.
pub fn mpv_window_id_response_readiness(line: &[u8], request_id: u64) -> (r: Option<bool>)
    ensures
        r == line_readiness(line@, request_id),
{
    let value = match parse_json_bytes(line) {
        Some(v) => v,
        None => return None,
    };
    let reply_request_id = json_value_u64_field(&value, "request_id");
    let error = json_value_str_field(&value, "error");
    let data = match json_value_number_field(&value, "data") {
        Some((i, u)) => {
            let nonzero = match i {
                Some(v) => v != 0,
                None => false,
            } || match u {
                Some(v) => v != 0,
                None => false,
            };
            MpvWindowIdData::Number { nonzero }
        },
        None => match json_value_str_field(&value, "data") {
            Some(id) => MpvWindowIdData::Text(id),
            None => MpvWindowIdData::Other,
        },
    };
    let error_text: Option<&str> = match &error {
        Some(e) => Some(e.as_str()),
        None => None,
    };
    mpv_window_id_readiness(reply_request_id, error_text, &data, request_id)
}

/// A character that may not stand in a saved file's name: a control
/// character or a path separator.
pub open spec fn unsafe_name_char(c: char) -> bool {
    is_control(c) || c == '/' || c == '\\'
}

/// Characters trimmed off both ends of a saved file's name.
pub open spec fn edge_char(c: char) -> bool {
    c == ' ' || c == '.'
}

/// Leading characters of `s` that are spaces or dots.
pub open spec fn leading_edge(s: Seq<char>) -> nat
    decreases s.len(),
{
    if s.len() > 0 && edge_char(s[0]) {
        1 + leading_edge(s.drop_first())
    } else {
        0
    }
}

/// Trailing characters of `s` that are spaces or dots.
pub open spec fn trailing_edge(s: Seq<char>) -> nat
    decreases s.len(),
{
    if s.len() > 0 && edge_char(s.last()) {
        1 + trailing_edge(s.drop_last())
    } else {
        0
    }
}

/// A name made safe to save under: control characters and path separators
/// become `_`, spaces and dots are trimmed off both ends, and `attachment`
/// stands in for a name with nothing left.
pub open spec fn sanitized_filename(name: Seq<char>) -> Seq<char> {
    let mapped = name.map_values(|c: char| if unsafe_name_char(c) { '_' } else { c });
    let rest = mapped.skip(leading_edge(mapped) as int);
    let kept = rest.take(rest.len() - trailing_edge(rest));
    if kept.len() == 0 {
        "attachment"@
    } else {
        kept
    }
}

proof fn lemma_leading_edge_exact(s: Seq<char>, k: int)
    requires
        0 <= k <= s.len(),
        forall|i: int| 0 <= i < k ==> edge_char(s[i]),
        k == s.len() || !edge_char(s[k]),
    ensures
        leading_edge(s) == k,
    decreases k,
{
    if k > 0 {
        lemma_leading_edge_exact(s.drop_first(), k - 1);
    }
}

proof fn lemma_trailing_edge_exact(s: Seq<char>, k: int)
    requires
        0 <= k <= s.len(),
        forall|i: int| s.len() - k <= i < s.len() ==> edge_char(s[i]),
        k == s.len() || !edge_char(s[s.len() - 1 - k]),
    ensures
        trailing_edge(s) == k,
    decreases k,
{
    if k > 0 {
        lemma_trailing_edge_exact(s.drop_last(), k - 1);
    }
}

proof fn lemma_leading_edge_bounds(s: Seq<char>)
    ensures
        leading_edge(s) <= s.len(),
        forall|i: int| 0 <= i < leading_edge(s) ==> edge_char(s[i]),
        leading_edge(s) < s.len() ==> !edge_char(s[leading_edge(s) as int]),
    decreases s.len(),
{
    if s.len() > 0 && edge_char(s[0]) {
        lemma_leading_edge_bounds(s.drop_first());
        assert forall|i: int| 0 <= i < leading_edge(s) implies edge_char(s[i]) by {
            if i > 0 {
                assert(s[i] == s.drop_first()[i - 1]);
            }
        }
    }
}

proof fn lemma_trailing_edge_bounds(s: Seq<char>)
    ensures
        trailing_edge(s) <= s.len(),
        trailing_edge(s) < s.len() ==> !edge_char(s[s.len() - 1 - trailing_edge(s)]),
    decreases s.len(),
{
    if s.len() > 0 && edge_char(s.last()) {
        lemma_trailing_edge_bounds(s.drop_last());
    }
}

/// A name is safe to save under when it is not empty, holds no control
/// character or path separator, and neither starts nor ends with a space or
/// a dot.
pub open spec fn safe_filename(name: Seq<char>) -> bool {
    &&& name.len() > 0
    &&& forall|i: int| 0 <= i < name.len() ==> !unsafe_name_char(#[trigger] name[i])
    &&& !edge_char(name[0])
    &&& !edge_char(name.last())
}

/// Every saved name is safe, and a safe name is saved as it is; so making a
/// name safe twice changes nothing more than making it safe once.
pub proof fn lemma_sanitized_filename_is_safe(name: Seq<char>)
    ensures
        safe_filename(sanitized_filename(name)),
        safe_filename(name) ==> sanitized_filename(name) == name,
        sanitized_filename(sanitized_filename(name)) == sanitized_filename(name),
{
    let f = |c: char| if unsafe_name_char(c) { '_' } else { c };
    let mapped = name.map_values(f);
    lemma_leading_edge_bounds(mapped);
    let rest = mapped.skip(leading_edge(mapped) as int);
    lemma_trailing_edge_bounds(rest);
    let kept = rest.take(rest.len() - trailing_edge(rest));
    if kept.len() == 0 {
        reveal_strlit("attachment");
        assert("attachment"@ =~= seq!['a', 't', 't', 'a', 'c', 'h', 'm', 'e', 'n', 't']);
    } else {
        assert(kept[0] == mapped[leading_edge(mapped) as int]);
        assert(kept.last() == rest[rest.len() - 1 - trailing_edge(rest)]);
        assert forall|i: int| 0 <= i < kept.len() implies !unsafe_name_char(#[trigger] kept[i]) by {
            assert(kept[i] == mapped[leading_edge(mapped) + i]);
        }
    }
    let safe = sanitized_filename(name);
    assert forall|t: Seq<char>| safe_filename(t) implies sanitized_filename(t) == t by {
        let m = t.map_values(f);
        assert(m =~= t);
        assert(leading_edge(m) == 0);
        assert(m.skip(0) =~= m);
        assert(trailing_edge(m) == 0);
        assert(m.take(m.len() as int) =~= m);
    }
}

/// The name a download is saved under.
pub fn sanitize_filename(filename: &str) -> (r: String)
    ensures
        r@ == sanitized_filename(filename@),
{
    let chars = chars_of(filename);
    let mut mapped: Vec<char> = Vec::new();
    let mut i: usize = 0;
    while i < chars.len()
        invariant
            i <= chars.len(),
            mapped@ == chars@.take(i as int).map_values(
                |c: char| if unsafe_name_char(c) { '_' } else { c },
            ),
        decreases chars.len() - i,
    {
        let c = chars[i];
        let replaced = if crate::text::char_is_control(c) || c == '/' || c == '\\' {
            '_'
        } else {
            c
        };
        mapped.push(replaced);
        i = i + 1;
        proof {
            assert(mapped@ =~= chars@.take(i as int).map_values(
                |c: char| if unsafe_name_char(c) { '_' } else { c },
            ));
        }
    }
    proof {
        assert(chars@.take(chars.len() as int) =~= chars@);
    }
    let mut start: usize = 0;
    while start < mapped.len() && (mapped[start] == ' ' || mapped[start] == '.')
        invariant
            start <= mapped.len(),
            forall|j: int| 0 <= j < start ==> edge_char(mapped@[j]),
        decreases mapped.len() - start,
    {
        start = start + 1;
    }
    proof {
        lemma_leading_edge_exact(mapped@, start as int);
    }
    let mut end: usize = mapped.len();
    while end > start && (mapped[end - 1] == ' ' || mapped[end - 1] == '.')
        invariant
            start <= end <= mapped.len(),
            forall|j: int| end <= j < mapped.len() ==> edge_char(mapped@[j]),
        decreases end - start,
    {
        end = end - 1;
    }
    proof {
        let rest = mapped@.skip(start as int);
        lemma_trailing_edge_exact(rest, (mapped.len() - end) as int);
        assert(rest.take(rest.len() - (mapped.len() - end)) =~= mapped@.subrange(
            start as int,
            end as int,
        ));
    }
    if start == end {
        proof {
            reveal_strlit("attachment");
        }
        return "attachment".to_string();
    }
    string_of_range(&mapped, start, end)
}

/// The stem `Path::file_stem` gives for a file name, as text; `None` when it
/// gives none or one that is not valid Unicode.
pub uninterp spec fn path_file_stem(name: Seq<char>) -> Option<Seq<char>>;

/// The extension `Path::extension` gives for a file name, as text; `None`
/// when it gives none or one that is not valid Unicode.
pub uninterp spec fn path_extension(name: Seq<char>) -> Option<Seq<char>>;

/// `Path::new(name).file_stem()` as text. The contract only names the result.
#[verifier::external_body]
fn file_stem_of(name: &str) -> (r: Option<String>)
    ensures
        match r {
            Some(s) => path_file_stem(name@) == Some(s@),
            None => path_file_stem(name@) is None,
        },
{
    std::path::Path::new(name).file_stem().and_then(|stem| stem.to_str()).map(|stem| stem.to_owned())
}

/// `Path::new(name).extension()` as text. The contract only names the result.
#[verifier::external_body]
fn extension_of(name: &str) -> (r: Option<String>)
    ensures
        match r {
            Some(s) => path_extension(name@) == Some(s@),
            None => path_extension(name@) is None,
        },
{
    std::path::Path::new(name).extension().and_then(|ext| ext.to_str()).map(|ext| ext.to_owned())
}

/// The name tried for a download on attempt `index`: the file name itself
/// first, then `STEM (N).EXT` (or `STEM (N)` without an extension), with
/// `attachment` as the stem when there is none.
pub open spec fn candidate_name(filename: Seq<char>, stem: Option<Seq<char>>, extension: Option<Seq<char>>, index: nat) -> Seq<char> {
    if index == 0 {
        filename
    } else {
        let s = match stem {
            Some(s) => s,
            None => "attachment"@,
        };
        match extension {
            Some(e) => s + " ("@ + decimal(index) + ")."@ + e,
            None => s + " ("@ + decimal(index) + ")"@,
        }
    }
}

/// The name tried for a download on attempt `index`, from the file name's
/// stem and extension.
pub fn download_candidate_name_from_parts(
    filename: &str,
    stem: Option<&str>,
    extension: Option<&str>,
    index: u64,
) -> (r: String)
    ensures
        r@ == candidate_name(
            filename@,
            match stem {
                Some(s) => Some(s@),
                None => None,
            },
            match extension {
                Some(e) => Some(e@),
                None => None,
            },
            index as nat,
        ),
{
    if index == 0 {
        return filename.to_string();
    }
    let mut name = String::new();
    match stem {
        Some(s) => push_str(&mut name, s),
        None => push_str(&mut name, "attachment"),
    }
    push_str(&mut name, " (");
    push_decimal(&mut name, index);
    match extension {
        Some(e) => {
            push_str(&mut name, ").");
            push_str(&mut name, e);
        },
        None => push_str(&mut name, ")"),
    }
    name
}

/// The name tried for a download of `filename` on attempt `index`; attempt
/// 0 tries the name itself.
pub fn download_candidate_name(filename: &str, index: u64) -> (r: String)
    ensures
        r@ == candidate_name(filename@, path_file_stem(filename@), path_extension(filename@), index as nat),
{
    let stem = file_stem_of(filename);
    let extension = extension_of(filename);
    let stem_ref: Option<&str> = match &stem {
        Some(s) => Some(s.as_str()),
        None => None,
    };
    let extension_ref: Option<&str> = match &extension {
        Some(e) => Some(e.as_str()),
        None => None,
    };
    download_candidate_name_from_parts(filename, stem_ref, extension_ref, index)
}

/// The JSON IPC request that asks `mpv` for its window id.
pub open spec fn window_id_request(request_id: u64) -> Seq<char> {
    "{\"command\":[\"get_property\",\"window-id\"],\"request_id\":"@ + decimal(request_id as nat) + "}"@
}

/// The JSON IPC request line (without its newline) that asks `mpv` for its
/// window id under `request_id`.
pub fn mpv_window_id_request(request_id: u64) -> (r: String)
    ensures
        r@ == window_id_request(request_id),
{
    let mut out = String::new();
    push_str(&mut out, "{\"command\":[\"get_property\",\"window-id\"],\"request_id\":");
    push_decimal(&mut out, request_id);
    push_str(&mut out, "}");
    out
}

/// The error for a download that is larger than allowed.
pub open spec fn too_large_message(label: Seq<char>, length: nat, max_bytes: nat) -> Seq<char> {
    label + " is too large: "@ + decimal(length) + " bytes (max "@ + decimal(max_bytes) + ")"@
}

/// What was read plus what arrives, capped at the largest `u64`.
pub open spec fn saturated_total(received: u64, incoming: u64) -> nat {
    if received + incoming > u64::MAX {
        u64::MAX as nat
    } else {
        (received + incoming) as nat
    }
}

/// Checks the size of a download against its limit, before the body (its
/// announced length) or as each piece arrives (what was read so far plus the
/// piece), with the sum capped at the largest `u64`.
pub fn check_download_size(label: &str, received: u64, incoming: u64, max_bytes: u64) -> (r: Result<(), String>)
    ensures
        saturated_total(received, incoming) <= max_bytes ==> r is Ok,
        saturated_total(received, incoming) > max_bytes ==> (r matches Err(m) && m@ == too_large_message(
            label@,
            saturated_total(received, incoming),
            max_bytes as nat,
        )),
{
    let total = received.saturating_add(incoming);
    if total > max_bytes {
        let mut message = String::new();
        push_str(&mut message, label);
        push_str(&mut message, " is too large: ");
        push_decimal(&mut message, total);
        push_str(&mut message, " bytes (max ");
        push_decimal(&mut message, max_bytes);
        push_str(&mut message, ")");
        Err(message)
    } else {
        Ok(())
    }
}

/// Seconds the player has to report its window.
pub const MEDIA_PLAYER_WINDOW_READY_TIMEOUT_SECS: u64 = 300;

/// What happened first while waiting for the player's window.
#[derive(Clone, Debug, PartialEq, Eq)]
pub enum MediaPlayerWindowEvent {
    /// The player exited; `status` is how its exit status reads.
    ChildExited { success: bool, status: String },
    /// Waiting for the player failed.
    ChildWaitFailed { error: String },
    /// The player reported a window.
    Ready,
    /// Asking the player for its window failed.
    ReadinessFailed { error: String },
    /// The player did not report a window in time.
    TimedOut,
}

/// What the client does once the window wait is over.
#[derive(Clone, Debug, PartialEq, Eq)]
pub enum MediaPlayerWindowOutcome {
    /// Report the window as ready, then wait for the player to exit.
    Ready,
    /// Report the failure, then wait for the player to exit.
    ReadinessFailed(String),
    /// Report the failure; the player is gone.
    ChildExited(String),
}

/// The outcome of the wait for the window of a playback labelled `label`.
pub open spec fn window_outcome(event: MediaPlayerWindowEvent, label: Seq<char>) -> MediaPlayerWindowOutcomeModel {
    let prefix = "play "@ + label + " failed: "@;
    match event {
        MediaPlayerWindowEvent::ChildExited { success, status } => MediaPlayerWindowOutcomeModel::ChildExited(
            if success {
                prefix + "media player exited before opening a window"@
            } else {
                prefix + "media player exited with status "@ + status@
            },
        ),
        MediaPlayerWindowEvent::ChildWaitFailed { error } => MediaPlayerWindowOutcomeModel::ChildExited(
            prefix + "media player wait failed: "@ + error@,
        ),
        MediaPlayerWindowEvent::Ready => MediaPlayerWindowOutcomeModel::Ready,
        MediaPlayerWindowEvent::ReadinessFailed { error } => MediaPlayerWindowOutcomeModel::ReadinessFailed(
            prefix + "media player readiness check failed: "@ + error@,
        ),
        MediaPlayerWindowEvent::TimedOut => MediaPlayerWindowOutcomeModel::ReadinessFailed(
            prefix + "media player did not report a window within "@ + decimal(300) + " seconds"@,
        ),
    }
}

/// The outcome with its message as text.
pub enum MediaPlayerWindowOutcomeModel {
    Ready,
    ReadinessFailed(Seq<char>),
    ChildExited(Seq<char>),
}

/// The text view of an outcome.
pub open spec fn outcome_view(o: MediaPlayerWindowOutcome) -> MediaPlayerWindowOutcomeModel {
    match o {
        MediaPlayerWindowOutcome::Ready => MediaPlayerWindowOutcomeModel::Ready,
        MediaPlayerWindowOutcome::ReadinessFailed(m) => MediaPlayerWindowOutcomeModel::ReadinessFailed(m@),
        MediaPlayerWindowOutcome::ChildExited(m) => MediaPlayerWindowOutcomeModel::ChildExited(m@),
    }
}

/// Decides what the client reports once the wait for the player's window
/// ends with `event`.
pub fn media_player_window_outcome(event: &MediaPlayerWindowEvent, label: &str) -> (r: MediaPlayerWindowOutcome)
    ensures
        outcome_view(r) == window_outcome(*event, label@),
{
    let mut message = String::new();
    push_str(&mut message, "play ");
    push_str(&mut message, label);
    push_str(&mut message, " failed: ");
    match event {
        MediaPlayerWindowEvent::ChildExited { success, status } => {
            if *success {
                push_str(&mut message, "media player exited before opening a window");
            } else {
                push_str(&mut message, "media player exited with status ");
                push_str(&mut message, status.as_str());
            }
            MediaPlayerWindowOutcome::ChildExited(message)
        },
        MediaPlayerWindowEvent::ChildWaitFailed { error } => {
            push_str(&mut message, "media player wait failed: ");
            push_str(&mut message, error.as_str());
            MediaPlayerWindowOutcome::ChildExited(message)
        },
        MediaPlayerWindowEvent::Ready => MediaPlayerWindowOutcome::Ready,
        MediaPlayerWindowEvent::ReadinessFailed { error } => {
            push_str(&mut message, "media player readiness check failed: ");
            push_str(&mut message, error.as_str());
            MediaPlayerWindowOutcome::ReadinessFailed(message)
        },
        MediaPlayerWindowEvent::TimedOut => {
            push_str(&mut message, "media player did not report a window within ");
            push_decimal(&mut message, MEDIA_PLAYER_WINDOW_READY_TIMEOUT_SECS);
            push_str(&mut message, " seconds");
            MediaPlayerWindowOutcome::ReadinessFailed(message)
        },
    }
}

/// How far a download has come: the bytes written so far and the count
/// last reported.
#[derive(Clone, Copy, Debug, PartialEq, Eq)]
pub struct DownloadProgress {
    pub downloaded_bytes: u64,
    pub last_reported_bytes: u64,
}

/// Milliseconds between two progress reports of a download.
pub const ATTACHMENT_DOWNLOAD_PROGRESS_INTERVAL_MILLIS: u64 = 250;

/// The progress after a chunk of `chunk_len` bytes was written, and the
/// count to report: the count grows (saturating at the largest `u64`); when
/// a report is `due` (the progress interval has passed) the new count is
/// reported and remembered as reported.
pub fn download_progress_after_chunk(progress: DownloadProgress, chunk_len: u64, due: bool) -> (r: (
    DownloadProgress,
    Option<u64>,
))
    ensures
        r.0.downloaded_bytes == if progress.downloaded_bytes + chunk_len > u64::MAX {
            u64::MAX as int
        } else {
            progress.downloaded_bytes + chunk_len
        },
        r.0.last_reported_bytes == if due {
            r.0.downloaded_bytes
        } else {
            progress.last_reported_bytes
        },
        r.1 == if due {
            Some(r.0.downloaded_bytes)
        } else {
            None::<u64>
        },
{
    let downloaded_bytes = progress.downloaded_bytes.saturating_add(chunk_len);
    if due {
        (DownloadProgress { downloaded_bytes, last_reported_bytes: downloaded_bytes }, Some(downloaded_bytes))
    } else {
        (DownloadProgress { downloaded_bytes, last_reported_bytes: progress.last_reported_bytes }, None)
    }
}

/// The report made once a download is written: its final count, when that
/// differs from the count last reported.
pub fn download_final_report(progress: DownloadProgress) -> (r: Option<u64>)
    ensures
        r == if progress.downloaded_bytes != progress.last_reported_bytes {
            Some(progress.downloaded_bytes)
        } else {
            None::<u64>
        },
{
    if progress.downloaded_bytes != progress.last_reported_bytes {
        Some(progress.downloaded_bytes)
    } else {
        None
    }
}

} // verus!
