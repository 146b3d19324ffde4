//! Serving requests of the asset scheme: the response a request gets and
//! how its body is read out in chunks.
use vstd::prelude::*;
use vstd::slice::{slice_subrange, slice_to_vec};
use crate::assets::{
    parse_url, url_parse, resolve_asset_request_path, request_path_spec, mime_type_for_path,
    mime_spec, path_extension, secure_asset_path, secure_spec,
};
use crate::paths::{PathPart, Part, parts_view, split_path, split_path_spec, eq_ignore_ascii_case, str_eq_ignore_ascii_case};

verus! {

/// The response prepared for one request, and how much of its body has been read.
pub struct AssetResourceHandler {
    pub body: Vec<u8>,
    pub offset: usize,
    pub mime_type: String,
    pub status_code: i32,
    pub status_text: String,
}

/// What reading a file gave.
pub enum FileRead {
    Contents(Vec<u8>),
    NotFound,
    Failed,
}

/// The handler holds exactly this response, unread.
pub open spec fn holds(
    h: AssetResourceHandler,
    code: i32,
    text: Seq<char>,
    mime: Seq<char>,
    body: Seq<u8>,
) -> bool {
    &&& h.status_code == code
    &&& h.status_text@ == text
    &&& h.mime_type@ == mime
    &&& h.body@ == body
    &&& h.offset == 0
}

/// The handler holds no response.
pub open spec fn is_empty(h: AssetResourceHandler) -> bool {
    holds(h, 0, seq![], seq![], seq![])
}

/// The bytes of a text, UTF-8 encoded.
pub open spec fn text_bytes(s: Seq<char>) -> Seq<u8> {
    vstd::utf8::encode_utf8(s)
}

/// The method is one the scheme serves.
pub open spec fn method_allowed(m: Seq<char>) -> bool {
    eq_ignore_ascii_case(m, "GET"@) || eq_ignore_ascii_case(m, "HEAD"@)
}

impl AssetResourceHandler {
    /// A handler with no response.
    pub fn new() -> (h: AssetResourceHandler)
        ensures
            is_empty(h),
    {
        AssetResourceHandler {
            body: Vec::new(),
            offset: 0,
            mime_type: String::new(),
            status_code: 0,
            status_text: String::new(),
        }
    }

    /// Forgets the response.
    pub fn reset(&mut self)
        ensures
            is_empty(*final(self)),
    {
        self.body.clear();
        self.offset = 0;
        self.mime_type = String::new();
        self.status_code = 0;
        self.status_text = String::new();
    }

    /// Holds the given response, unread.
    pub fn set_response(&mut self, status_code: i32, status_text: &str, mime_type: &str, body: Vec<u8>)
        ensures
            holds(*final(self), status_code, status_text@, mime_type@, body@),
    {
        self.body = body;
        self.offset = 0;
        self.mime_type = mime_type.to_owned();
        self.status_code = status_code;
        self.status_text = status_text.to_owned();
    }

    /// Starts answering a request with `method` for `url`. A request that is
    /// answered at once gets its response and `None`; otherwise the handler is
    /// left empty and the file the request asks for is handed back, to be
    /// resolved on disk and checked with `admit_asset`.
    pub fn prepare_response(&mut self, method: &str, url: &str, assets_dir: &str) -> (r: Option<
        Vec<PathPart>,
    >)
        ensures
            !method_allowed(method@) ==> r is None && holds(
                *final(self),
                405,
                "Method Not Allowed"@,
                "text/plain; charset=utf-8"@,
                text_bytes("Method Not Allowed"@),
            ),
            method_allowed(method@) ==> match url_parse(url@) {
                None => r is None && holds(*final(self), 400, "Bad Request"@, "text/plain; charset=utf-8"@, seq![]),
                Some(u) => match request_path_spec(u, split_path_spec(assets_dir@)) {
                    None => r is None && holds(*final(self), 403, "Forbidden"@, "text/plain; charset=utf-8"@, seq![]),
                    Some(p) => r matches Some(v) && parts_view(v@) == p && is_empty(*final(self)),
                },
            },
    {
        self.reset();
        if !(str_eq_ignore_ascii_case(method, "GET") || str_eq_ignore_ascii_case(method, "HEAD")) {
            let text = "Method Not Allowed";
            self.set_response(405, text, "text/plain; charset=utf-8", text.as_bytes_vec());
            return None;
        }
        let parsed = match parse_url(url) {
            Some(u) => u,
            None => {
                self.set_response(400, "Bad Request", "text/plain; charset=utf-8", Vec::new());
                return None;
            },
        };
        let dir = split_path(assets_dir);
        match resolve_asset_request_path(&parsed, &dir) {
            Some(p) => Some(p),
            None => {
                self.set_response(403, "Forbidden", "text/plain; charset=utf-8", Vec::new());
                None
            },
        }
    }

    /// Lets the resolved file through when it lies inside the assets root;
    /// otherwise answers `403 Forbidden`.
    pub fn admit_asset(&mut self, root: Option<&str>, secured: Option<&str>) -> (ok: bool)
        ensures
            ok == secure_spec(
                match root { Some(r) => Some(r@), None => None },
                match secured { Some(s) => Some(s@), None => None },
            ),
            ok ==> *final(self) == *old(self),
            !ok ==> holds(*final(self), 403, "Forbidden"@, "text/plain; charset=utf-8"@, seq![]),
    {
        if secure_asset_path(root, secured) {
            true
        } else {
            self.set_response(403, "Forbidden", "text/plain; charset=utf-8", Vec::new());
            false
        }
    }

    /// Answers with what reading the file at `path` gave: its contents (none
    /// for `HEAD`), `404 Not Found`, or `500 Internal Server Error`.
    pub fn deliver_asset(&mut self, method: &str, path: &str, read: FileRead)
        ensures
            match read {
                FileRead::Contents(b) => holds(
                    *final(self),
                    200,
                    "OK"@,
                    mime_spec(path_extension(split_path_spec(path@))),
                    if eq_ignore_ascii_case(method@, "HEAD"@) { seq![] } else { b@ },
                ),
                FileRead::NotFound => holds(*final(self), 404, "Not Found"@, "text/plain; charset=utf-8"@, seq![]),
                FileRead::Failed => holds(
                    *final(self),
                    500,
                    "Internal Server Error"@,
                    "text/plain; charset=utf-8"@,
                    seq![],
                ),
            },
    {
        match read {
            FileRead::Contents(body) => {
                let body = if str_eq_ignore_ascii_case(method, "HEAD") {
                    Vec::new()
                } else {
                    body
                };
                self.set_response(200, "OK", mime_type_for_path(path), body);
            },
            FileRead::NotFound => {
                self.set_response(404, "Not Found", "text/plain; charset=utf-8", Vec::new());
            },
            FileRead::Failed => {
                self.set_response(500, "Internal Server Error", "text/plain; charset=utf-8", Vec::new());
            },
        }
    }

    /// The bytes of the body not read yet.
    pub open spec fn remaining(&self) -> int {
        if self.offset <= self.body@.len() {
            self.body@.len() - self.offset
        } else {
            0
        }
    }

    /// Reads up to `bytes_to_read` bytes of the body (none for a negative
    /// count). Gives back the bytes and whether any were read.
    pub fn read_body_chunk(&mut self, bytes_to_read: i32) -> (r: (Vec<u8>, bool))
        ensures
            ({
                let want: int = if bytes_to_read < 0 { 0 } else { bytes_to_read as int };
                let count: int = if old(self).remaining() < want { old(self).remaining() } else { want };
                &&& count > 0 ==> r.0@ == old(self).body@.subrange(
                    old(self).offset as int,
                    old(self).offset + count,
                )
                &&& count == 0 ==> r.0@ == Seq::<u8>::empty()
                &&& r.1 == (count > 0)
                &&& final(self).offset == old(self).offset + count
                &&& final(self).body == old(self).body
                &&& final(self).mime_type == old(self).mime_type
                &&& final(self).status_code == old(self).status_code
                &&& final(self).status_text == old(self).status_text
            }),
    {
        let len = self.body.len();
        let remaining = if self.offset <= len { len - self.offset } else { 0 };
        let want: usize = if bytes_to_read < 0 { 0 } else { bytes_to_read as usize };
        let count = if remaining < want { remaining } else { want };
        if count == 0 {
            return (Vec::new(), false);
        }
        let start = self.offset;
        let chunk = slice_to_vec(slice_subrange(self.body.as_slice(), start, start + count));
        self.offset = start + count;
        (chunk, true)
    }

    /// Skips up to `bytes_to_skip` bytes of the body (none for a negative
    /// count). Gives back how many were skipped.
    pub fn skip(&mut self, bytes_to_skip: i64) -> (skipped: i64)
        ensures
            ({
                let want: int = if bytes_to_skip < 0 { 0 } else { bytes_to_skip as int };
                let count: int = if old(self).remaining() < want { old(self).remaining() } else { want };
                &&& skipped == count
                &&& final(self).offset == old(self).offset + count
                &&& final(self).body == old(self).body
                &&& final(self).mime_type == old(self).mime_type
                &&& final(self).status_code == old(self).status_code
                &&& final(self).status_text == old(self).status_text
            }),
    {
        let len = self.body.len();
        let remaining = if self.offset <= len { len - self.offset } else { 0 };
        let count: usize = if bytes_to_skip <= 0 {
            0
        } else if (remaining as u64) <= (bytes_to_skip as u64) {
            remaining
        } else {
            bytes_to_skip as usize
        };
        self.offset = self.offset + count;
        count as i64
    }
}

} // verus!
