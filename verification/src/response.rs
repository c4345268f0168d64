//! Content types and the framing of a response.

use crate::text::{
    all_digits, chars_of, decimal, decimal_string, equals_str, find_last, last_index_of,
    lemma_decimal, lemma_last_index_of, lemma_last_index_of_split, lowercase, lowered, number,
};
use vstd::prelude::*;
use vstd::utf8::{encode_utf8, is_ascii_chars, is_ascii_chars_encode_utf8};

verus! {

/// The part of `file` after its last `.`, if it has a `.` at all.
pub open spec fn extension(file: Seq<char>) -> Option<Seq<char>> {
    let dot = last_index_of(file, '.');
    if dot < 0 {
        None
    } else {
        Some(file.skip(dot + 1))
    }
}

/// The extension of `file` holds no dot, and `file` is some stem, a dot,
/// and the extension; a file without an extension holds no dot at all.
pub proof fn lemma_extension(file: Seq<char>)
    ensures
        match extension(file) {
            Some(ext) => {
                &&& ext.len() < file.len()
                &&& !ext.contains('.')
                &&& file == file.take(file.len() - ext.len() - 1) + seq!['.'] + ext
            },
            None => !file.contains('.'),
        },
{
    let dot = last_index_of(file, '.');
    lemma_last_index_of(file, '.');
    if dot >= 0 {
        let ext = file.skip(dot + 1);
    }
}

/// The content type that goes with a lower-case extension.
pub open spec fn extension_type(ext: Seq<char>) -> Seq<char> {
    if ext == "html"@ || ext == "htm"@ {
        "text/html"@
    } else if ext == "css"@ {
        "text/css"@
    } else if ext == "js"@ {
        "application/javascript"@
    } else if ext == "json"@ {
        "application/json"@
    } else if ext == "jpeg"@ || ext == "jpg"@ {
        "image/jpeg"@
    } else if ext == "png"@ {
        "image/png"@
    } else if ext == "gif"@ {
        "image/gif"@
    } else if ext == "bmp"@ {
        "image/bmp"@
    } else if ext == "svg"@ {
        "image/svg+xml"@
    } else if ext == "txt"@ {
        "text/plain"@
    } else if ext == "pdf"@ {
        "application/pdf"@
    } else if ext == "zip"@ {
        "application/zip"@
    } else {
        "application/octet-stream"@
    }
}

/// The content type of `file`: that of its extension, whatever the case of
/// its letters, and the generic binary type when it has no extension.
pub open spec fn content_type(file: Seq<char>) -> Seq<char> {
    match extension(file) {
        Some(ext) => extension_type(lowercase(ext)),
        None => "application/octet-stream"@,
    }
}

/// A file named by a stem, a dot and an extension without a dot has the
/// content type of that extension folded to lower case: the case of the
/// letters of the extension makes no difference, and the stem makes none.
pub proof fn lemma_content_type_of_name(stem: Seq<char>, ext: Seq<char>)
    requires
        !ext.contains('.'),
    ensures
        extension(stem + seq!['.'] + ext) == Some(ext),
        content_type(stem + seq!['.'] + ext) == extension_type(lowercase(ext)),
        content_type(stem + seq!['.'] + lowercase(ext)) == content_type(stem + seq!['.'] + ext),
{
    let low = lowercase(ext);
    lemma_last_index_of_split(stem, '.', ext);
    assert((stem + seq!['.'] + ext).skip(stem.len() as int + 1) =~= ext);
    assert forall|i: int| 0 <= i < low.len() implies low[i] != '.' by {
        assert(ext[i] != '.');
    }
    lemma_last_index_of_split(stem, '.', low);
    assert((stem + seq!['.'] + low).skip(stem.len() as int + 1) =~= low);
    assert(lowercase(low) =~= low);
}

/// The content type of the file at the path `file`.
pub fn get_content_type(file: &str) -> (kind: String)
    ensures
        kind@ == content_type(file@),
{
    let s = chars_of(file);
    let kind = match find_last(s.as_slice(), '.') {
        None => "application/octet-stream",
        Some(dot) => {
            let low = lowered(s.as_slice(), dot + 1);
            let ext = low.as_slice();
            if equals_str(ext, "html") || equals_str(ext, "htm") {
                "text/html"
            } else if equals_str(ext, "css") {
                "text/css"
            } else if equals_str(ext, "js") {
                "application/javascript"
            } else if equals_str(ext, "json") {
                "application/json"
            } else if equals_str(ext, "jpeg") || equals_str(ext, "jpg") {
                "image/jpeg"
            } else if equals_str(ext, "png") {
                "image/png"
            } else if equals_str(ext, "gif") {
                "image/gif"
            } else if equals_str(ext, "bmp") {
                "image/bmp"
            } else if equals_str(ext, "svg") {
                "image/svg+xml"
            } else if equals_str(ext, "txt") {
                "text/plain"
            } else if equals_str(ext, "pdf") {
                "application/pdf"
            } else if equals_str(ext, "zip") {
                "application/zip"
            } else {
                "application/octet-stream"
            }
        },
    };
    kind.to_owned()
}

/// The two outcomes that are answered.
#[derive(Clone, Copy, Debug, PartialEq, Eq, Structural)]
pub enum Status {
    /// The requested file exists.
    Found,
    /// It does not; the fallback page is served in its place.
    NotFound,
}

/// The status line that announces `status`.
pub open spec fn status_text(status: Status) -> Seq<char> {
    match status {
        Status::Found => "HTTP/1.1 200 OK"@,
        Status::NotFound => "HTTP/1.1 404 Not Found"@,
    }
}

impl Status {
    /// The status line that announces this status.
    pub fn line(self) -> (text: String)
        ensures
            text@ == status_text(self),
    {
        match self {
            Status::Found => "HTTP/1.1 200 OK".to_owned(),
            Status::NotFound => "HTTP/1.1 404 Not Found".to_owned(),
        }
    }
}

/// An answer, ready to be framed.
#[derive(Debug, PartialEq, Eq)]
pub struct Response {
    pub status_line: String,
    pub content_type: String,
    pub body: Vec<u8>,
}

/// What a `Response` holds.
pub struct ResponseModel {
    pub status_line: Seq<char>,
    pub content_type: Seq<char>,
    pub body: Seq<u8>,
}

impl View for Response {
    type V = ResponseModel;

    open spec fn view(&self) -> ResponseModel {
        ResponseModel {
            status_line: self.status_line@,
            content_type: self.content_type@,
            body: self.body@,
        }
    }
}

impl Clone for Response {
    fn clone(&self) -> (copy: Self)
        ensures
            copy@ == self@,
    {
        Response {
            status_line: self.status_line.clone(),
            content_type: self.content_type.clone(),
            body: self.body.clone(),
        }
    }
}

/// The answer with `status` that serves the bytes `body` read from `file`.
pub open spec fn response_for(status: Status, file: Seq<char>, body: Seq<u8>) -> ResponseModel {
    ResponseModel { status_line: status_text(status), content_type: content_type(file), body }
}

/// The head of a response: the status line, the length of the body in
/// bytes, the content type, and the empty line that ends the head.
pub open spec fn head_text(r: ResponseModel) -> Seq<char> {
    r.status_line + "\r\nContent-Length: "@ + decimal(r.body.len()) + "\r\nContent-Type: "@
        + r.content_type + "\r\n\r\n"@
}

/// A response as it goes over the wire: the head in UTF-8, then the body
/// as it is.
pub open spec fn wire_bytes(r: ResponseModel) -> Seq<u8> {
    encode_utf8(head_text(r)) + r.body
}

impl Response {
    /// The answer with `status` that serves the bytes `body` read from `file`.
    pub fn new(status: Status, file: &str, body: Vec<u8>) -> (r: Response)
        ensures
            r@ == response_for(status, file@, body@),
    {
        Response { status_line: status.line(), content_type: get_content_type(file), body }
    }

    /// The head of this response.
    pub fn head(&self) -> (text: String)
        ensures
            text@ == head_text(self@),
    {
        let mut text = self.status_line.clone();
        text.append("\r\nContent-Length: ");
        text.append(decimal_string(self.body.len()).as_str());
        text.append("\r\nContent-Type: ");
        text.append(self.content_type.as_str());
        text.append("\r\n\r\n");
        text
    }

    /// This response as it goes over the wire.
    pub fn into_bytes(self) -> (bytes: Vec<u8>)
        ensures
            bytes@ == wire_bytes(self@),
    {
        let mut bytes = self.head().as_str().as_bytes_vec();
        let mut body = self.body;
        bytes.append(&mut body);
        bytes
    }
}

/// The length that the head announces is the length of the body in bytes:
/// the field is a decimal number that reads back as that length. The body
/// follows the head on the wire, byte for byte.
pub proof fn lemma_content_length(r: ResponseModel)
    ensures
        head_text(r) == r.status_line + "\r\nContent-Length: "@ + decimal(r.body.len())
            + "\r\nContent-Type: "@ + r.content_type + "\r\n\r\n"@,
        all_digits(decimal(r.body.len())),
        number(decimal(r.body.len())) == r.body.len(),
        wire_bytes(r).len() == encode_utf8(head_text(r)).len() + r.body.len(),
        wire_bytes(r).skip(encode_utf8(head_text(r)).len() as int) == r.body,
{
    lemma_decimal(r.body.len());
}

/// Every content type is made of ASCII characters.
proof fn lemma_content_type_is_ascii(file: Seq<char>)
    ensures
        is_ascii_chars(content_type(file)),
{
    reveal_strlit("text/html");
    reveal_strlit("text/css");
    reveal_strlit("application/javascript");
    reveal_strlit("application/json");
    reveal_strlit("image/jpeg");
    reveal_strlit("image/png");
    reveal_strlit("image/gif");
    reveal_strlit("image/bmp");
    reveal_strlit("image/svg+xml");
    reveal_strlit("text/plain");
    reveal_strlit("application/pdf");
    reveal_strlit("application/zip");
    reveal_strlit("application/octet-stream");
}

/// The head of an answer built by `response_for` is made of ASCII
/// characters, so it takes one byte for each character on the wire.
pub proof fn lemma_head_is_ascii(status: Status, file: Seq<char>, body: Seq<u8>)
    ensures
        is_ascii_chars(head_text(response_for(status, file, body))),
        encode_utf8(head_text(response_for(status, file, body))).len() == head_text(
            response_for(status, file, body),
        ).len(),
        wire_bytes(response_for(status, file, body)).len() == head_text(
            response_for(status, file, body),
        ).len() + body.len(),
{
    let r = response_for(status, file, body);
    reveal_strlit("HTTP/1.1 200 OK");
    reveal_strlit("HTTP/1.1 404 Not Found");
    reveal_strlit("\r\nContent-Length: ");
    reveal_strlit("\r\nContent-Type: ");
    reveal_strlit("\r\n\r\n");
    lemma_content_type_is_ascii(file);
    lemma_decimal(body.len());
    is_ascii_chars_encode_utf8(head_text(r));
}

} // verus!
