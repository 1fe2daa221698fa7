//! The request that puts a file into the repository.

use crate::config::UserConfig;
use crate::encode::{base64_standard, encodable, encode};
use std::path::Path;
use vstd::prelude::*;
use vstd::string::{StringExecFns, StringSliceAdditionalSpecFns};
use vstd::utf8::*;

verus! {

/// One header of a request.
#[derive(Debug)]
pub struct Header {
    /// The header's name.
    pub name: String,
    /// The header's value.
    pub value: String,
}

/// What is sent: a `PUT` of `body` to `url`, under the uploader's headers.
#[derive(Debug)]
pub struct UploadRequest {
    /// Where the file goes.
    pub url: String,
    /// The JSON text that carries the file.
    pub body: Vec<u8>,
}

/// The headers that every upload goes out with.
#[derive(Debug)]
pub struct Uploader {
    /// Who asks, what answer is understood, and the token.
    pub header: Vec<Header>,
}

/// The last component of a path, as `std::path::Path::file_name` finds it;
/// the path is read as the platform that the library is built for reads
/// paths.
pub uninterp spec fn path_file_name(path: Seq<char>) -> Option<Seq<char>>;

/// `std::path::Path::file_name` on the path made of `path` by `Path::new`:
/// the last component, unless the path ends in `..` or names a root.
/// Trusted: the result is that component by name.
#[verifier::external_body]
fn file_name_of(path: &str) -> (name: Option<&str>)
    ensures
        match name {
            Some(n) => path_file_name(path@) == Some(n@),
            None => path_file_name(path@) is None,
        },
{
    Path::new(path).file_name().and_then(|n| n.to_str())
}

/// The value of the `Authorization` header for a token.
pub open spec fn authorization(token: Seq<char>) -> Seq<char> {
    "token "@ + token
}

/// Where a file of the given name goes in the user's repository.
pub open spec fn upload_url(user: Seq<char>, repo: Seq<char>, file_name: Seq<char>) -> Seq<char> {
    "https://api.github.com/repos/"@ + user + "/"@ + repo + "/contents/"@ + file_name
}

/// The JSON text that carries `content`, signed with name and address. Name
/// and address go in as they are.
pub open spec fn upload_body(user: Seq<char>, mail: Seq<char>, content: Seq<u8>) -> Seq<u8> {
    encode_utf8("{\"message\": \"upload\", \"commiter\": {\"name\": \""@) + encode_utf8(user)
        + encode_utf8("\", \"email\":\""@) + encode_utf8(mail) + encode_utf8(
        "\"}, \"content\": \""@,
    ) + content + encode_utf8("\"}"@)
}

/// Appends the bytes of `text` to `buf`.
fn push_text(buf: &mut Vec<u8>, text: &str)
    ensures
        final(buf)@ == old(buf)@ + encode_utf8(text@),
{
    push_bytes(buf, text.as_bytes());
}

/// Appends `bytes` to `buf`.
fn push_bytes(buf: &mut Vec<u8>, bytes: &[u8])
    ensures
        final(buf)@ == old(buf)@ + bytes@,
{
    buf.extend_from_slice(bytes);
    assert(buf@ =~= old(buf)@ + bytes@);
}

impl Uploader {
    /// The headers are the three that an upload needs, for the given token.
    pub open spec fn carries(&self, token: Seq<char>) -> bool {
        &&& self.header@.len() == 3
        &&& self.header@[0].name@ == "User-Agent"@
        &&& self.header@[0].value@ == "pup"@
        &&& self.header@[1].name@ == "accept"@
        &&& self.header@[1].value@ == "application/vnd.github.v3+json"@
        &&& self.header@[2].name@ == "Authorization"@
        &&& self.header@[2].value@ == authorization(token)
    }

    /// The uploader that signs with `token`.
    pub fn init(token: &str) -> (uploader: Uploader)
        ensures
            uploader.carries(token@),
    {
        let mut header: Vec<Header> = Vec::new();
        header.push(Header { name: "User-Agent".to_owned(), value: "pup".to_owned() });
        header.push(
            Header { name: "accept".to_owned(), value: "application/vnd.github.v3+json".to_owned() },
        );
        let mut token_with_prefix = "token ".to_owned();
        token_with_prefix.append(token);
        header.push(Header { name: "Authorization".to_owned(), value: token_with_prefix });
        Uploader { header }
    }

    /// The request for a file of the given name and contents.
    pub fn request(file_name: &str, contents: &[u8], user_cfg: &UserConfig) -> (req: UploadRequest)
        requires
            encodable(contents@.len()),
        ensures
            req.url@ == upload_url(
                user_cfg.github_user_name@,
                user_cfg.github_repo_name@,
                file_name@,
            ),
            req.body@ == upload_body(
                user_cfg.github_user_name@,
                user_cfg.mail@,
                base64_standard(contents@),
            ),
    {
        let encoded_file_contents = encode(contents);
        let mut json_body: Vec<u8> = Vec::new();
        push_text(&mut json_body, "{\"message\": \"upload\", \"commiter\": {\"name\": \"");
        push_text(&mut json_body, user_cfg.github_user_name.as_str());
        push_text(&mut json_body, "\", \"email\":\"");
        push_text(&mut json_body, user_cfg.mail.as_str());
        push_text(&mut json_body, "\"}, \"content\": \"");
        push_bytes(&mut json_body, encoded_file_contents.as_slice());
        push_text(&mut json_body, "\"}");
        assert(json_body@ =~= upload_body(
            user_cfg.github_user_name@,
            user_cfg.mail@,
            base64_standard(contents@),
        ));

        let mut url = "https://api.github.com/repos/".to_owned();
        url.append(user_cfg.github_user_name.as_str());
        url.append("/");
        url.append(user_cfg.github_repo_name.as_str());
        url.append("/contents/");
        url.append(file_name);
        UploadRequest { url, body: json_body }
    }

    /// The request that uploads the file at `path`, whose contents are
    /// `contents`. The path has to end in a file name.
    pub fn upload(&self, path: &str, contents: &[u8], user_cfg: &UserConfig) -> (req: UploadRequest)
        requires
            path_file_name(path@) is Some,
            encodable(contents@.len()),
        ensures
            req.url@ == upload_url(
                user_cfg.github_user_name@,
                user_cfg.github_repo_name@,
                path_file_name(path@)->Some_0,
            ),
            req.body@ == upload_body(
                user_cfg.github_user_name@,
                user_cfg.mail@,
                base64_standard(contents@),
            ),
    {
        match file_name_of(path) {
            Some(file_name) => Self::request(file_name, contents, user_cfg),
            None => vstd::pervasive::unreached(),
        }
    }

    /// As `upload`, for any path and contents: `None` where the path ends in
    /// no file name or the contents are too long to encode.
    pub fn try_upload(&self, path: &str, contents: &[u8], user_cfg: &UserConfig) -> (r: Option<
        UploadRequest,
    >)
        ensures
            r is None <==> path_file_name(path@) is None || !encodable(contents@.len()),
            r matches Some(req) ==> req.url@ == upload_url(
                user_cfg.github_user_name@,
                user_cfg.github_repo_name@,
                path_file_name(path@)->Some_0,
            ) && req.body@ == upload_body(
                user_cfg.github_user_name@,
                user_cfg.mail@,
                base64_standard(contents@),
            ),
    {
        if contents.len() > usize::MAX / 4 {
            return None;
        }
        if file_name_of(path).is_none() {
            return None;
        }
        Some(self.upload(path, contents, user_cfg))
    }
}

} // verus!
