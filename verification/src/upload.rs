//! The video upload: a byte scan that cuts a multipart body at its
//! boundary, finds the first part that announces a file name, and decides
//! what is stored under which name. It is no MIME parser: a boundary that
//! occurs inside a payload cuts there too, and nothing is unescaped.

use vstd::prelude::*;
use vstd::slice::slice_subrange;
use vstd::string::*;
use vstd::utf8::{decode_utf8, valid_utf8};
use crate::calendar::now_rfc3339;
use crate::text::{
    chars_of, copy_chars, ends_with, find, find_bytes_from, find_chars_from, find_from,
    lemma_find_from_is_first, string_of,
};

verus! {

/// The views of a sequence of byte slices.
pub open spec fn byte_rows(v: Seq<&[u8]>) -> Seq<Seq<u8>> {
    Seq::new(v.len(), |i: int| v[i]@)
}

/// The pieces of `body` from `start` on that lie between occurrences of
/// `boundary`: each piece runs up to the next occurrence, and the search
/// goes on behind that occurrence. What follows the last occurrence is a
/// piece too, unless nothing follows it.
pub open spec fn parts_from(body: Seq<u8>, boundary: Seq<u8>, start: int) -> Seq<Seq<u8>>
    decreases body.len() - start,
{
    if start < 0 || start >= body.len() || boundary.len() == 0 {
        Seq::empty()
    } else {
        match find_from(body, boundary, start) {
            Some(pos) => {
                proof {
                    lemma_find_from_is_first(body, boundary, start);
                }
                seq![body.subrange(start, pos)] + parts_from(body, boundary, pos + boundary.len())
            },
            None => seq![body.subrange(start, body.len() as int)],
        }
    }
}

/// The pieces of `body` between occurrences of `boundary`.
pub open spec fn parts_of(body: Seq<u8>, boundary: Seq<u8>) -> Seq<Seq<u8>> {
    parts_from(body, boundary, 0)
}

/// Cuts `body` at each occurrence of `boundary`. An occurrence that lies
/// inside a payload cuts like any other.
pub fn split_body_by_boundary<'a>(body: &'a [u8], boundary: &[u8]) -> (parts: Vec<&'a [u8]>)
    requires
        boundary@.len() > 0,
    ensures
        byte_rows(parts@) == parts_of(body@, boundary@),
{
    let mut parts: Vec<&'a [u8]> = Vec::new();
    let n: usize = body.len();
    let mut start: usize = 0;
    proof {
        assert(byte_rows(parts@) =~= Seq::<Seq<u8>>::empty());
    }
    while start < n
        invariant
            start <= n == body@.len(),
            boundary@.len() > 0,
            parts_of(body@, boundary@) =~= byte_rows(parts@) + parts_from(
                body@,
                boundary@,
                start as int,
            ),
        decreases n - start,
    {
        let ghost before = byte_rows(parts@);
        match find_bytes_from(body, boundary, start) {
            Some(pos) => {
                let piece = slice_subrange(body, start, pos);
                parts.push(piece);
                proof {
                    assert(byte_rows(parts@) =~= before + seq![body@.subrange(
                        start as int,
                        pos as int,
                    )]);
                }
                start = pos + boundary.len();
            },
            None => {
                let piece = slice_subrange(body, start, n);
                parts.push(piece);
                proof {
                    assert(byte_rows(parts@) =~= before + seq![body@.subrange(
                        start as int,
                        n as int,
                    )]);
                }
                return parts;
            },
        }
    }
    proof {
        assert(parts_from(body@, boundary@, start as int) =~= Seq::<Seq<u8>>::empty());
    }
    parts
}

/// The text that `String::from_utf8_lossy` makes of `bytes`.
pub uninterp spec fn utf8_lossy(bytes: Seq<u8>) -> Seq<char>;

/// `String::from_utf8_lossy`: the text that the bytes encode, with each
/// invalid sequence replaced by U+FFFD. For valid UTF-8 that is the
/// decoded text itself.
#[verifier::external_body]
fn lossy_text(bytes: &[u8]) -> (out: String)
    ensures
        out@ == utf8_lossy(bytes@),
        valid_utf8(bytes@) ==> out@ == decode_utf8(bytes@),
{
    String::from_utf8_lossy(bytes).into_owned()
}

/// The bytes that announce a file name in a part's headers.
pub open spec fn filename_key() -> Seq<u8> {
    "filename=\"".spec_bytes()
}

/// Where the file name lies in `part`: from behind the first
/// `filename="` up to the next double quote. `None` when the marker or
/// the closing quote is missing.
pub open spec fn filename_span(part: Seq<u8>) -> Option<(int, int)> {
    match find(part, filename_key()) {
        Some(at) => match find_from(part, seq![0x22u8], at + filename_key().len()) {
            Some(end) => Some((at + filename_key().len(), end)),
            None => None,
        },
        None => None,
    }
}

/// The file name that `part` announces, if it announces one.
pub open spec fn filename_of(part: Seq<u8>) -> Option<Seq<char>> {
    match filename_span(part) {
        Some((from, to)) => Some(utf8_lossy(part.subrange(from, to))),
        None => None,
    }
}

/// Recovers the file name that the client gave from a part's headers.
pub fn extract_filename_from_part(part: &[u8]) -> (name: Option<String>)
    ensures
        match name {
            Some(text) => filename_of(part@) == Some(text@),
            None => filename_of(part@) is None,
        },
        name is Some ==> {
            let span = filename_span(part@)->0;
            valid_utf8(part@.subrange(span.0, span.1)) ==> name->0@ == decode_utf8(
                part@.subrange(span.0, span.1),
            )
        },
{
    let key = "filename=\"".as_bytes();
    let n: usize = part.len();
    match find_bytes_from(part, key, 0) {
        Some(at) => {
            let from: usize = at + key.len();
            let mut quote: Vec<u8> = Vec::new();
            quote.push(0x22u8);
            proof {
                assert(quote@ =~= seq![0x22u8]);
            }
            match find_bytes_from(part, quote.as_slice(), from) {
                Some(end) => Some(lossy_text(slice_subrange(part, from, end))),
                None => None,
            }
        },
        None => None,
    }
}

/// `s` without the carriage returns and line feeds at its end.
pub open spec fn trim_line_ends(s: Seq<u8>) -> Seq<u8>
    decreases s.len(),
{
    if s.len() > 0 && (s.last() == 0x0du8 || s.last() == 0x0au8) {
        trim_line_ends(s.drop_last())
    } else {
        s
    }
}

/// The payload of `part`: what follows the first blank line, without the
/// line ends behind it. Empty when `part` has no blank line.
pub open spec fn file_data_of(part: Seq<u8>) -> Seq<u8> {
    match find(part, "\r\n\r\n".spec_bytes()) {
        Some(at) => trim_line_ends(part.skip(at + "\r\n\r\n".spec_bytes().len())),
        None => Seq::empty(),
    }
}

/// Recovers the payload of a part.
pub fn extract_file_data_from_part(part: &[u8]) -> (data: Vec<u8>)
    ensures
        data@ == file_data_of(part@),
{
    let blank = "\r\n\r\n".as_bytes();
    let n: usize = part.len();
    match find_bytes_from(part, blank, 0) {
        Some(at) => {
            let from: usize = at + blank.len();
            let mut end: usize = n;
            proof {
                assert(part@.skip(from as int) =~= part@.subrange(from as int, n as int));
            }
            while end > from && (part[end - 1] == 0x0du8 || part[end - 1] == 0x0au8)
                invariant
                    from <= end <= n == part@.len(),
                    trim_line_ends(part@.skip(from as int)) == trim_line_ends(
                        part@.subrange(from as int, end as int),
                    ),
                decreases end,
            {
                proof {
                    assert(part@.subrange(from as int, end as int).drop_last() =~= part@.subrange(
                        from as int,
                        end - 1,
                    ));
                }
                end -= 1;
            }
            let mut data: Vec<u8> = Vec::new();
            data.extend_from_slice(slice_subrange(part, from, end));
            proof {
                assert(data@ =~= part@.subrange(from as int, end as int));
            }
            data
        },
        None => Vec::new(),
    }
}

/// The boundary that separates the parts of a body of the content type
/// `content_type`: two hyphens and all that follows the first
/// `boundary=`.
pub open spec fn boundary_of(content_type: Seq<char>) -> Option<Seq<char>> {
    match find(content_type, "boundary="@) {
        Some(at) => Some("--"@ + content_type.skip(at + "boundary="@.len())),
        None => None,
    }
}

/// Reads the boundary from a content type.
pub fn boundary_in(content_type: &str) -> (boundary: Option<String>)
    ensures
        match boundary {
            Some(text) => boundary_of(content_type@) == Some(text@),
            None => boundary_of(content_type@) is None,
        },
{
    let cs = chars_of(content_type);
    let key = chars_of("boundary=");
    let n: usize = cs.len();
    match find_chars_from(cs.as_slice(), key.as_slice(), 0) {
        Some(at) => {
            let rest = copy_chars(cs.as_slice(), at + key.len(), n);
            let mut boundary = String::from_str("--");
            boundary.append(string_of(rest.as_slice()).as_str());
            proof {
                assert(cs@.skip(at + key@.len()) =~= cs@.subrange(at + key@.len(), n as int));
            }
            Some(boundary)
        },
        None => None,
    }
}

/// `s` with a hyphen in place of every colon.
pub open spec fn without_colons(s: Seq<char>) -> Seq<char> {
    Seq::new(
        s.len(),
        |i: int|
            if s[i] == ':' {
                '-'
            } else {
                s[i]
            },
    )
}

/// The name under which an upload is stored: the time of the upload with
/// hyphens for colons, an underscore, and the name that the client gave.
pub open spec fn stored_name(stamp: Seq<char>, client_name: Seq<char>) -> Seq<char> {
    without_colons(stamp) + "_"@ + client_name
}

/// Names an upload.
pub fn name_upload(stamp: &str, client_name: &str) -> (name: String)
    ensures
        name@ == stored_name(stamp@, client_name@),
{
    let cs = chars_of(stamp);
    let mut name = String::new();
    let mut i: usize = 0;
    while i < cs.len()
        invariant
            i <= cs@.len(),
            name@ =~= without_colons(cs@).take(i as int),
        decreases cs@.len() - i,
    {
        let c = if cs[i] == ':' {
            '-'
        } else {
            cs[i]
        };
        name.push(c);
        i += 1;
    }
    proof {
        assert(without_colons(cs@).take(cs@.len() as int) =~= without_colons(cs@));
    }
    name.append("_");
    name.append(client_name);
    name
}

/// The index of the first of `parts` from `from` on that announces a file
/// name.
pub open spec fn first_named(parts: Seq<Seq<u8>>, from: int) -> Option<int>
    decreases parts.len() - from,
{
    if from < 0 || from >= parts.len() {
        None
    } else if filename_of(parts[from]) is Some {
        Some(from)
    } else {
        first_named(parts, from + 1)
    }
}

/// A file to be written.
#[derive(Debug)]
pub struct StoredFile {
    pub path: String,
    pub data: Vec<u8>,
}

/// The outcome of a video upload: the reply, and the file to write
/// before the reply is sent, if there is one.
#[derive(Debug)]
pub struct Upload {
    pub reply: (&'static str, String, &'static str),
    pub file: Option<StoredFile>,
}

/// What an `Upload` holds.
pub struct UploadModel {
    pub reply: (Seq<char>, Seq<char>, Seq<char>),
    pub file: Option<(Seq<char>, Seq<u8>)>,
}

impl View for Upload {
    type V = UploadModel;

    open spec fn view(&self) -> UploadModel {
        UploadModel {
            reply: (self.reply.0@, self.reply.1@, self.reply.2@),
            file: match self.file {
                Some(file) => Some((file.path@, file.data@)),
                None => None,
            },
        }
    }
}

/// An upload that stores nothing and answers 400 with `body`.
pub open spec fn refused_upload(body: Seq<char>) -> UploadModel {
    UploadModel {
        reply: ("HTTP/1.1 400 BAD REQUEST"@, body, "application/json"@),
        file: None,
    }
}

/// The outcome of an upload whose first named part announces the name
/// `client_name` and carries the payload `data`: the payload is stored
/// in the uploads directory under the name made of the time and
/// `client_name`, and the reply names the stored file.
pub open spec fn stored_upload(stamp: Seq<char>, client_name: Seq<char>, data: Seq<u8>)
    -> UploadModel {
    let name = stored_name(stamp, client_name);
    UploadModel {
        reply: (
            "HTTP/1.1 200 OK"@,
            "{\"fileUrl\": \"./uploads/"@ + name + "\"}"@,
            "application/json"@,
        ),
        file: Some(("./uploads/"@ + name, data)),
    }
}

/// The path of the file that an upload stores.
pub open spec fn stored_path(upload: UploadModel) -> Seq<char> {
    match upload.file {
        Some(file) => file.0,
        None => Seq::empty(),
    }
}

/// The bytes of the file that an upload stores.
pub open spec fn stored_data(upload: UploadModel) -> Seq<u8> {
    match upload.file {
        Some(file) => file.1,
        None => Seq::empty(),
    }
}

/// A stored upload keeps the payload as it is, under a name that ends in
/// an underscore and the name that the client gave; the reply names that
/// file.
pub proof fn lemma_stored_upload_keeps_name_and_payload(
    stamp: Seq<char>,
    client_name: Seq<char>,
    data: Seq<u8>,
)
    ensures
        stored_upload(stamp, client_name, data).file is Some,
        stored_data(stored_upload(stamp, client_name, data)) == data,
        ends_with(stored_path(stored_upload(stamp, client_name, data)), "_"@ + client_name),
        stored_upload(stamp, client_name, data).reply.1 == "{\"fileUrl\": \""@ + stored_path(
            stored_upload(stamp, client_name, data),
        ) + "\"}"@,
{
    let path = stored_path(stored_upload(stamp, client_name, data));
    let tail = "_"@ + client_name;
    assert(path =~= "./uploads/"@ + without_colons(stamp) + tail);
    assert(path.subrange(path.len() - tail.len(), path.len() as int) =~= tail);
    assert("{\"fileUrl\": \"./uploads/"@ =~= "{\"fileUrl\": \""@ + "./uploads/"@) by {
        reveal_strlit("{\"fileUrl\": \"./uploads/");
        reveal_strlit("{\"fileUrl\": \"");
        reveal_strlit("./uploads/");
    }
    assert(stored_upload(stamp, client_name, data).reply.1 =~= "{\"fileUrl\": \""@ + path
        + "\"}"@);
}

/// The outcome of the upload of `body` under `content_type` at the time
/// `stamp`. The first part that announces a file name is stored, with its
/// payload, in the uploads directory, and the reply names the stored
/// file. Without a boundary, or without such a part, nothing is stored and
/// the reply is 400.
pub open spec fn upload_of(body: Seq<u8>, content_type: Seq<char>, stamp: Seq<char>)
    -> UploadModel {
    match boundary_of(content_type) {
        None => refused_upload("{\"error\": \"Boundary not found in Content-Type header\"}"@),
        Some(boundary) => {
            let parts = parts_of(body, vstd::utf8::encode_utf8(boundary));
            match first_named(parts, 0) {
                None => refused_upload("{\"error\": \"No video file provided\"}"@),
                Some(at) => stored_upload(
                    stamp,
                    filename_of(parts[at])->0,
                    file_data_of(parts[at]),
                ),
            }
        },
    }
}

/// Decides the outcome of an upload whose first named part announces the
/// name `client_name` and carries the payload `data`.
pub fn store_upload(stamp: &str, client_name: &str, data: Vec<u8>) -> (upload: Upload)
    ensures
        upload@ == stored_upload(stamp@, client_name@, data@),
{
    let name = name_upload(stamp, client_name);
    let mut path = String::from_str("./uploads/");
    path.append(name.as_str());
    let mut text = String::from_str("{\"fileUrl\": \"./uploads/");
    text.append(name.as_str());
    text.append("\"}");
    Upload {
        reply: ("HTTP/1.1 200 OK", text, "application/json"),
        file: Some(StoredFile { path, data }),
    }
}

fn refuse_upload(body: &str) -> (upload: Upload)
    ensures
        upload@ == refused_upload(body@),
{
    Upload {
        reply: ("HTTP/1.1 400 BAD REQUEST", String::from_str(body), "application/json"),
        file: None,
    }
}

/// Decides the outcome of a video upload that arrived at the time
/// written in `stamp`.
pub fn handle_video_upload_at(body: &[u8], content_type: &str, stamp: &str) -> (upload: Upload)
    ensures
        upload@ == upload_of(body@, content_type@, stamp@),
{
    let boundary = match boundary_in(content_type) {
        Some(text) => text,
        None => {
            return refuse_upload("{\"error\": \"Boundary not found in Content-Type header\"}");
        },
    };
    let boundary_bytes = boundary.as_str().as_bytes();
    if boundary_bytes.len() == 0 {
        proof {
            assert(first_named(parts_of(body@, boundary_bytes@), 0) is None);
        }
        return refuse_upload("{\"error\": \"No video file provided\"}");
    }
    let parts = split_body_by_boundary(body, boundary_bytes);
    let ghost all = byte_rows(parts@);
    let mut i: usize = 0;
    while i < parts.len()
        invariant
            i <= parts@.len(),
            all == byte_rows(parts@),
            all == parts_of(body@, vstd::utf8::encode_utf8(boundary@)),
            boundary_of(content_type@) == Some(boundary@),
            first_named(all, 0) == first_named(all, i as int),
        decreases parts@.len() - i,
    {
        proof {
            assert(all[i as int] == parts@[i as int]@);
        }
        match extract_filename_from_part(parts[i]) {
            Some(client_name) => {
                let data = extract_file_data_from_part(parts[i]);
                return store_upload(stamp, client_name.as_str(), data);
            },
            None => {},
        }
        i += 1;
    }
    refuse_upload("{\"error\": \"No video file provided\"}")
}

/// `/upload/video`: decides the outcome of a video upload that arrives
/// now.
pub fn handle_video_upload(body: &[u8], content_type: &str) -> (upload: Upload)
    ensures
        exists|stamp: Seq<char>| upload@ == upload_of(body@, content_type@, stamp),
{
    let stamp = now_rfc3339();
    let upload = handle_video_upload_at(body, content_type, stamp.as_str());
    proof {
        assert(upload@ == upload_of(body@, content_type@, stamp@));
    }
    upload
}

} // verus!
