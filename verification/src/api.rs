//! The addresses of the remote API and the reading of its replies.
//!
//! Sending a request and awaiting its reply is left to the caller. What is
//! decided here is which address a call goes to and what a reply means.

use vstd::prelude::*;
use vstd::utf8::encode_utf8;
use crate::bot::TelegramFile;
use crate::bot::TelegramFilePath;
use crate::error::Error;

verus! {

/// Requests whose address and parameters together take more bytes than this
/// are refused.
pub const MAX_REQUEST_BYTES: usize = 0x0100_0000;

/// Whether a path starts with `/`.
pub open spec fn is_rooted(path: Seq<char>) -> bool {
    path.len() > 0 && path[0] == '/'
}

/// The address of an API method, before any parameter:
/// `https://api.telegram.org/bot<token>/<path>`, with exactly one `/` between
/// the token and a path that brings none.
pub open spec fn method_entry(token: Seq<char>, path: Seq<char>) -> Seq<char> {
    if is_rooted(path) {
        "https://api.telegram.org/bot"@ + token + path
    } else {
        "https://api.telegram.org/bot"@ + token + "/"@ + path
    }
}

/// The address from which the file service serves the file at `file_path`:
/// `https://api.telegram.org/file/bot<token>/<file path>`.
pub open spec fn file_address(token: Seq<char>, file_path: Seq<char>) -> Seq<char> {
    "https://api.telegram.org/file/bot"@ + token + "/"@ + file_path
}

/// The parameters as pairs of character sequences.
pub open spec fn params_view(params: Seq<(&str, &str)>) -> Seq<(Seq<char>, Seq<char>)> {
    params.map_values(|pair: (&str, &str)| (pair.0@, pair.1@))
}

/// The number of bytes that a list of parameters takes: for each one its key
/// and its value in UTF-8, and two separators.
pub open spec fn params_bytes(params: Seq<(Seq<char>, Seq<char>)>) -> int
    decreases params.len(),
{
    if params.len() == 0 {
        0
    } else {
        params_bytes(params.drop_last())
            + encode_utf8(params.last().0).len()
            + encode_utf8(params.last().1).len()
            + 2
    }
}

/// The address that the URL parser makes of `entry` with `params` added to
/// its query, or `None` where it does not accept `entry` as an absolute URL.
pub uninterp spec fn url_with_params(
    entry: Seq<char>,
    params: Seq<(Seq<char>, Seq<char>)>,
) -> Option<Seq<char>>;

/// Parses `entry` as an absolute URL and appends `params` to its query
/// (`reqwest::Url::parse_with_params`), then hands the URL out as text.
///
/// The parser works on its arguments alone; the contract gives its answer a
/// name and claims nothing else of it. The parser keeps positions in 32 bits
/// and can panic on a text that overflows them, so only inputs far below that
/// size are let through.
#[verifier::external_body]
fn parse_url_with_params(entry: &str, params: &[(&str, &str)]) -> (url: Option<String>)
    requires
        encode_utf8(entry@).len() + params_bytes(params_view(params@)) <= MAX_REQUEST_BYTES,
    ensures
        match url {
            Some(u) => url_with_params(entry@, params_view(params@)) == Some(u@),
            None => url_with_params(entry@, params_view(params@)) is None,
        },
{
    reqwest::Url::parse_with_params(entry, params).ok().map(String::from)
}

/// Builds the address of an API method, without parameters.
pub fn api_entry(token: &str, path: &str) -> (entry: String)
    ensures
        entry@ == method_entry(token@, path@),
{
    let mut entry = String::from_str("https://api.telegram.org/bot");
    entry.append(token);
    let rooted = path.unicode_len() > 0 && path.get_char(0) == '/';
    if !rooted {
        entry.append("/");
    }
    entry.append(path);
    entry
}

/// Adds up the bytes of `params`, or reports that they pass `limit`.
fn params_within(params: &[(&str, &str)], limit: usize) -> (total: Option<usize>)
    ensures
        match total {
            Some(bytes) => bytes == params_bytes(params_view(params@)) && bytes <= limit,
            None => params_bytes(params_view(params@)) > limit,
        },
{
    let mut total: usize = 0;
    let mut at: usize = 0;
    while at < params.len()
        invariant
            at <= params@.len(),
            total == params_bytes(params_view(params@).take(at as int)),
            total <= limit,
        decreases params@.len() - at,
    {
        let key = params[at].0.as_bytes().len();
        let value = params[at].1.as_bytes().len();
        proof {
            let all = params_view(params@);
            let prefix = all.take(at + 1);
            assert(prefix.drop_last() =~= all.take(at as int));
            assert(prefix.last() == (params@[at as int].0@, params@[at as int].1@));
            lemma_params_bytes_grow(all, at + 1);
        }
        if key > limit - total || value > limit - total - key || 2 > limit - total - key - value {
            return None;
        }
        total = total + key + value + 2;
        at = at + 1;
    }
    proof {
        assert(params_view(params@).take(at as int) =~= params_view(params@));
    }
    Some(total)
}

/// A longer list of parameters never takes fewer bytes than its beginning.
proof fn lemma_params_bytes_grow(params: Seq<(Seq<char>, Seq<char>)>, n: int)
    requires
        0 <= n <= params.len(),
    ensures
        0 <= params_bytes(params.take(n)) <= params_bytes(params),
    decreases params.len() - n,
{
    lemma_params_bytes_nonnegative(params.take(n));
    if n < params.len() {
        lemma_params_bytes_grow(params, n + 1);
        assert(params.take(n + 1).drop_last() =~= params.take(n));
    } else {
        assert(params.take(n) =~= params);
    }
}

proof fn lemma_params_bytes_nonnegative(params: Seq<(Seq<char>, Seq<char>)>)
    ensures
        0 <= params_bytes(params),
    decreases params.len(),
{
    if params.len() > 0 {
        lemma_params_bytes_nonnegative(params.drop_last());
    }
}

/// The address of the call of `path` with `params`, as the caller sends it.
/// `None` means that there is no such address: the request is larger than
/// [`MAX_REQUEST_BYTES`], or the parser does not accept it as a URL.
pub open spec fn method_address(
    token: Seq<char>,
    path: Seq<char>,
    params: Seq<(Seq<char>, Seq<char>)>,
) -> Option<Seq<char>> {
    let entry = method_entry(token, path);
    if encode_utf8(entry).len() + params_bytes(params) > MAX_REQUEST_BYTES {
        None
    } else {
        url_with_params(entry, params)
    }
}

/// Builds the address of the call of the API method `path` with `params` in
/// its query.
pub fn method_url(token: &str, path: &str, params: &[(&str, &str)]) -> (url: Option<String>)
    ensures
        match url {
            Some(u) => method_address(token@, path@, params_view(params@)) == Some(u@),
            None => method_address(token@, path@, params_view(params@)) is None,
        },
{
    let entry = api_entry(token, path);
    let entry_bytes = entry.as_str().as_bytes().len();
    if entry_bytes > MAX_REQUEST_BYTES {
        proof {
            lemma_params_bytes_nonnegative(params_view(params@));
        }
        return None;
    }
    match params_within(params, MAX_REQUEST_BYTES - entry_bytes) {
        Some(_) => parse_url_with_params(entry.as_str(), params),
        None => None,
    }
}

/// The address of the call that identifies the bot.
pub fn login_url(token: &str) -> (url: Option<String>)
    ensures
        match url {
            Some(u) => method_address(token@, "getMe"@, Seq::empty()) == Some(u@),
            None => method_address(token@, "getMe"@, Seq::empty()) is None,
        },
{
    let params: [(&str, &str); 0] = [];
    let url = method_url(token, "getMe", params.as_slice());
    proof {
        assert(params_view(params@) =~= Seq::empty());
    }
    url
}

/// The address of the call that lists the stickers of the set `name`.
pub fn sticker_set_url(token: &str, name: &str) -> (url: Option<String>)
    ensures
        match url {
            Some(u) => {
                method_address(token@, "getStickerSet"@, seq![("name"@, name@)]) == Some(u@)
            },
            None => method_address(token@, "getStickerSet"@, seq![("name"@, name@)]) is None,
        },
{
    let params = [("name", name)];
    let url = method_url(token, "getStickerSet", params.as_slice());
    proof {
        assert(params_view(params@) =~= seq![("name"@, name@)]);
    }
    url
}

/// The address of the call that resolves where `file` can be fetched from.
pub fn file_info_url<F: TelegramFile + ?Sized>(token: &str, file: &F) -> (url: Option<String>)
    ensures
        match url {
            Some(u) => {
                method_address(token@, "getFile"@, seq![("file_id"@, file.spec_file_id())])
                    == Some(u@)
            },
            None => {
                method_address(token@, "getFile"@, seq![("file_id"@, file.spec_file_id())])
                    is None
            },
        },
{
    let id = file.file_id();
    let params = [("file_id", id)];
    let url = method_url(token, "getFile", params.as_slice());
    proof {
        assert(params_view(params@) =~= seq![("file_id"@, id@)]);
    }
    url
}

/// Builds the address from which the file at `file_path` is fetched.
pub fn download_url(token: &str, file_path: &TelegramFilePath) -> (url: String)
    ensures
        url@ == file_address(token@, file_path@),
{
    let mut url = String::from_str("https://api.telegram.org/file/bot");
    url.append(token);
    url.append("/");
    url.append(file_path.as_str());
    url
}

/// Decides what a reply means once its status has been read.
///
/// `status` is the `ok` flag of the reply, or the message of the failure to
/// read it. A reply whose status cannot be read is a JSON error; one that
/// says the call failed is a bot error that holds the whole reply; any other
/// reply is handed back for its payload to be read.
pub fn check_status(
    reply: String,
    status: Result<bool, String>,
) -> (checked: Result<String, Error>)
    ensures
        match status {
            Err(message) => checked == Err::<String, Error>(Error::ResponseJsonError(message)),
            Ok(false) => checked == Err::<String, Error>(Error::BotError(reply)),
            Ok(true) => checked == Ok::<String, Error>(reply),
        },
{
    match status {
        Err(message) => Err(Error::ResponseJsonError(message)),
        Ok(false) => Err(Error::BotError(reply)),
        Ok(true) => Ok(reply),
    }
}

/// Turns the outcome of reading the payload of a reply into the outcome of
/// the call: the payload, or a JSON error with the message of the failure.
pub fn payload_or_error<T>(payload: Result<T, String>) -> (outcome: Result<T, Error>)
    ensures
        match payload {
            Ok(value) => outcome == Ok::<T, Error>(value),
            Err(message) => outcome == Err::<T, Error>(Error::ResponseJsonError(message)),
        },
{
    match payload {
        Ok(value) => Ok(value),
        Err(message) => Err(Error::ResponseJsonError(message)),
    }
}

} // verus!
