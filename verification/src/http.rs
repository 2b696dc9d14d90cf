//! The first look at a connection: whether it asks for the WebSocket, and
//! which static file a plain request is for.
//!
//! A request is read as bytes. Its path is the second word of its first line,
//! words being set apart by ASCII white space; a request without one asks for
//! the root.

use vstd::prelude::*;
use vstd::string::StringSliceAdditionalSpecFns;

verus! {

/// The static files that the server delivers.
#[derive(Debug, Clone, Copy, PartialEq, Eq, Structural)]
pub enum Asset {
    /// The page.
    Index,
    /// Its style sheet.
    Style,
    /// The client, compiled.
    Wasm,
    /// The script that loads the client.
    Script,
}

/// Whether `needle` stands in `hay` at index `at`.
pub open spec fn occurs_at(hay: Seq<u8>, needle: Seq<u8>, at: int) -> bool {
    &&& 0 <= at
    &&& at + needle.len() <= hay.len()
    &&& forall|k: int| 0 <= k < needle.len() ==> hay[at + k] == needle[k]
}

/// Whether `needle` stands somewhere in `hay`.
pub open spec fn occurs(hay: Seq<u8>, needle: Seq<u8>) -> bool {
    exists|at: int| occurs_at(hay, needle, at)
}

/// Whether a request asks for the WebSocket: it names the upgrade, with the
/// header's name capitalised or not.
pub open spec fn asks_upgrade(request: Seq<u8>) -> bool {
    occurs(request, "Upgrade: websocket".spec_bytes()) || occurs(request, "upgrade: websocket".spec_bytes())
}

/// Whether a byte is ASCII white space: a space, or one of tab, line feed,
/// vertical tab, form feed and carriage return.
pub open spec fn is_space(b: u8) -> bool {
    b == 32 || 9 <= b <= 13
}

/// Index of the first line feed at or after `from`; the length if there is
/// none.
pub open spec fn line_end(request: Seq<u8>, from: int) -> int
    decreases request.len() - from,
{
    if from >= request.len() {
        request.len() as int
    } else if request[from] == 10 {
        from
    } else {
        line_end(request, from + 1)
    }
}

/// Index of the first byte at or after `from`, and before `end`, that is no
/// white space; `end` if there is none.
pub open spec fn skip_spaces(request: Seq<u8>, from: int, end: int) -> int
    decreases end - from,
{
    if from >= end {
        end
    } else if is_space(request[from]) {
        skip_spaces(request, from + 1, end)
    } else {
        from
    }
}

/// Index of the first byte at or after `from`, and before `end`, that is
/// white space; `end` if there is none.
pub open spec fn skip_word(request: Seq<u8>, from: int, end: int) -> int
    decreases end - from,
{
    if from >= end {
        end
    } else if !is_space(request[from]) {
        skip_word(request, from + 1, end)
    } else {
        from
    }
}

/// Where the second word of the first line starts and ends.
pub open spec fn path_span(request: Seq<u8>) -> (int, int) {
    let end = line_end(request, 0);
    let first = skip_spaces(request, 0, end);
    let gap = skip_word(request, first, end);
    let second = skip_spaces(request, gap, end);
    (second, skip_word(request, second, end))
}

/// The path that a request asks for: the second word of its first line, or
/// the root if the line has no second word.
pub open spec fn request_path(request: Seq<u8>) -> Seq<u8> {
    let (from, to) = path_span(request);
    if from < to {
        request.subrange(from, to)
    } else {
        "/".spec_bytes()
    }
}

/// The static file that stands at a path, if one does.
pub open spec fn asset_at(path: Seq<u8>) -> Option<Asset> {
    if path == "/".spec_bytes() || path == "/index.html".spec_bytes() {
        Some(Asset::Index)
    } else if path == "/style.css".spec_bytes() {
        Some(Asset::Style)
    } else if path == "/pkg/client_bg.wasm".spec_bytes() {
        Some(Asset::Wasm)
    } else if path == "/pkg/client.js".spec_bytes() {
        Some(Asset::Script)
    } else {
        None
    }
}

/// Whether `needle` stands somewhere in `hay`.
pub fn contains(hay: &[u8], needle: &[u8]) -> (found: bool)
    ensures
        found == occurs(hay@, needle@),
{
    if needle.len() > hay.len() {
        return false;
    }
    let last = hay.len() - needle.len();
    let mut at: usize = 0;
    while at <= last
        invariant
            last == hay@.len() - needle@.len(),
            hay@.len() <= usize::MAX,
            at <= last + 1,
            forall|a: int| 0 <= a < at ==> !occurs_at(hay@, needle@, a),
        decreases last + 1 - at,
    {
        let mut k: usize = 0;
        while k < needle.len() && hay[at + k] == needle[k]
            invariant
                at <= last,
                last == hay@.len() - needle@.len(),
                hay@.len() <= usize::MAX,
                k <= needle@.len(),
                forall|j: int| 0 <= j < k ==> hay@[at + j] == needle@[j],
            decreases needle.len() - k,
        {
            k += 1;
        }
        if k == needle.len() {
            assert(occurs_at(hay@, needle@, at as int));
            return true;
        }
        at += 1;
    }
    false
}

/// Whether a request asks for the WebSocket.
pub fn is_websocket_upgrade(request: &[u8]) -> (upgrade: bool)
    ensures
        upgrade == asks_upgrade(request@),
{
    contains(request, "Upgrade: websocket".as_bytes()) || contains(request, "upgrade: websocket".as_bytes())
}

/// Whether a byte is ASCII white space.
fn space(b: u8) -> (yes: bool)
    ensures
        yes == is_space(b),
{
    b == 32 || (9 <= b && b <= 13)
}

/// Index of the first line feed; the length if there is none.
fn find_line_end(request: &[u8]) -> (end: usize)
    ensures
        end == line_end(request@, 0),
        end <= request@.len(),
{
    let mut i: usize = 0;
    while i < request.len() && request[i] != 10
        invariant
            i <= request@.len(),
            line_end(request@, 0) == line_end(request@, i as int),
        decreases request.len() - i,
    {
        i += 1;
    }
    i
}

/// Index of the first byte from `from` on and before `end` that is no white
/// space.
fn pass_spaces(request: &[u8], from: usize, end: usize) -> (at: usize)
    requires
        from <= end <= request@.len(),
    ensures
        at == skip_spaces(request@, from as int, end as int),
        from <= at <= end,
{
    let mut i: usize = from;
    while i < end && space(request[i])
        invariant
            from <= i <= end <= request@.len(),
            skip_spaces(request@, from as int, end as int) == skip_spaces(request@, i as int, end as int),
        decreases end - i,
    {
        i += 1;
    }
    i
}

/// Index of the first byte from `from` on and before `end` that is white
/// space.
fn pass_word(request: &[u8], from: usize, end: usize) -> (at: usize)
    requires
        from <= end <= request@.len(),
    ensures
        at == skip_word(request@, from as int, end as int),
        from <= at <= end,
{
    let mut i: usize = from;
    while i < end && !space(request[i])
        invariant
            from <= i <= end <= request@.len(),
            skip_word(request@, from as int, end as int) == skip_word(request@, i as int, end as int),
        decreases end - i,
    {
        i += 1;
    }
    i
}

/// Whether the bytes of `request` from `from` to `to` are those of `text`.
fn span_is(request: &[u8], from: usize, to: usize, text: &[u8]) -> (same: bool)
    requires
        from <= to <= request@.len(),
    ensures
        same == (request@.subrange(from as int, to as int) == text@),
{
    let ghost span = request@.subrange(from as int, to as int);
    if to - from != text.len() {
        return false;
    }
    let mut k: usize = 0;
    while k < text.len()
        invariant
            from <= to <= request@.len(),
            to - from == text@.len(),
            span == request@.subrange(from as int, to as int),
            k <= text@.len(),
            forall|j: int| 0 <= j < k ==> span[j] == text@[j],
        decreases text.len() - k,
    {
        if request[from + k] != text[k] {
            assert(span[k as int] != text@[k as int]);
            return false;
        }
        k += 1;
    }
    assert(span =~= text@);
    true
}

/// The static file that a request is for, if it is for one.
pub fn route(request: &[u8]) -> (asset: Option<Asset>)
    ensures
        asset == asset_at(request_path(request@)),
{
    let end = find_line_end(request);
    let first = pass_spaces(request, 0, end);
    let gap = pass_word(request, first, end);
    let from = pass_spaces(request, gap, end);
    let to = pass_word(request, from, end);
    if from >= to {
        return Some(Asset::Index);
    }
    if span_is(request, from, to, "/".as_bytes()) || span_is(request, from, to, "/index.html".as_bytes()) {
        Some(Asset::Index)
    } else if span_is(request, from, to, "/style.css".as_bytes()) {
        Some(Asset::Style)
    } else if span_is(request, from, to, "/pkg/client_bg.wasm".as_bytes()) {
        Some(Asset::Wasm)
    } else if span_is(request, from, to, "/pkg/client.js".as_bytes()) {
        Some(Asset::Script)
    } else {
        None
    }
}

impl Asset {
    /// The file's path below the directory of the static files.
    pub fn file(&self) -> (path: &'static str)
        ensures
            path@ == match *self {
                Asset::Index => "index.html"@,
                Asset::Style => "style.css"@,
                Asset::Wasm => "pkg/client_bg.wasm"@,
                Asset::Script => "pkg/client.js"@,
            },
    {
        match self {
            Asset::Index => "index.html",
            Asset::Style => "style.css",
            Asset::Wasm => "pkg/client_bg.wasm",
            Asset::Script => "pkg/client.js",
        }
    }

    /// The media type under which the file is delivered.
    pub fn content_type(&self) -> (kind: &'static str)
        ensures
            kind@ == match *self {
                Asset::Index => "text/html; charset=utf-8"@,
                Asset::Style => "text/css; charset=utf-8"@,
                Asset::Wasm => "application/wasm"@,
                Asset::Script => "application/javascript; charset=utf-8"@,
            },
    {
        match self {
            Asset::Index => "text/html; charset=utf-8",
            Asset::Style => "text/css; charset=utf-8",
            Asset::Wasm => "application/wasm",
            Asset::Script => "application/javascript; charset=utf-8",
        }
    }
}

} // verus!
