//! The page's files, built into the binary, and what a request for one is
//! answered.
use crate::num::{hex, hex_string};
use crate::text::{
    cat3, contains, contains_str, eq_str, from_chars, same, starts_with, starts_with_str, tail, tail_of, to_chars,
    trim, trim_start, trim_start_of, trim_str, Class,
};
use crate::flasher::board::opt_str;
use vstd::prelude::*;
use vstd::string::*;

verus! {

/// One file of the page.
#[derive(Debug)]
pub struct Asset {
    pub path: &'static str,
    pub mime: &'static str,
    pub etag: &'static str,
    pub raw: &'static [u8],
    pub gzip: Option<&'static [u8]>,
}

pub ghost struct AssetModel {
    pub path: Seq<char>,
    pub mime: Seq<char>,
    pub etag: Seq<char>,
    pub raw: Seq<u8>,
    pub gzip: Option<Seq<u8>>,
}

impl View for Asset {
    type V = AssetModel;

    open spec fn view(&self) -> AssetModel {
        AssetModel {
            path: self.path@,
            mime: self.mime@,
            etag: self.etag@,
            raw: self.raw@,
            gzip: match self.gzip {
                Some(b) => Some(b@),
                None => None,
            },
        }
    }
}

pub open spec fn assets_view(v: Seq<Asset>) -> Seq<AssetModel> {
    v.map_values(|a: Asset| a@)
}

// ------------------------------------------------------------------ building them in

/// The media type of a file, by what stands behind the last dot of its name.
pub open spec fn mime_of(path: Seq<char>) -> Seq<char> {
    let e = tail(path, Class::One('.'));
    if e == "html"@ {
        "text/html; charset=utf-8"@
    } else if e == "js"@ || e == "mjs"@ {
        "application/javascript"@
    } else if e == "css"@ {
        "text/css"@
    } else if e == "json"@ {
        "application/json"@
    } else if e == "svg"@ {
        "image/svg+xml"@
    } else if e == "png"@ {
        "image/png"@
    } else if e == "woff2"@ {
        "font/woff2"@
    } else if e == "ico"@ {
        "image/x-icon"@
    } else {
        "application/octet-stream"@
    }
}

pub fn mime_for(path: &str) -> (r: &'static str)
    ensures
        r@ == mime_of(path@),
{
    let chars = to_chars(path);
    let e: &[char] = tail_of(chars.as_slice(), &Class::One('.'));
    if eq_str(e, "html") {
        "text/html; charset=utf-8"
    } else if eq_str(e, "js") || eq_str(e, "mjs") {
        "application/javascript"
    } else if eq_str(e, "css") {
        "text/css"
    } else if eq_str(e, "json") {
        "application/json"
    } else if eq_str(e, "svg") {
        "image/svg+xml"
    } else if eq_str(e, "png") {
        "image/png"
    } else if eq_str(e, "woff2") {
        "font/woff2"
    } else if eq_str(e, "ico") {
        "image/x-icon"
    } else {
        "application/octet-stream"
    }
}

pub const FNV_START: u64 = 0xcbf29ce484222325;

pub const FNV_PRIME: u64 = 0x100000001b3;

/// The 64-bit FNV-1a hash: for each byte, exclusive or, then a product modulo
/// two to the 64.
pub open spec fn fnv(b: Seq<u8>) -> u64
    decreases b.len(),
{
    if b.len() == 0 {
        FNV_START
    } else {
        (((fnv(b.drop_last()) ^ (b.last() as u64)) * FNV_PRIME) % 0x1_0000_0000_0000_0000) as u64
    }
}

pub fn fnv1a(b: &[u8]) -> (r: u64)
    ensures
        r == fnv(b@),
{
    let mut h: u64 = FNV_START;
    let mut i: usize = 0;
    assert(b@.take(0) =~= seq![]);
    while i < b.len()
        invariant
            i <= b@.len(),
            h == fnv(b@.take(i as int)),
        decreases b@.len() - i,
    {
        assert(b@.take(i + 1).drop_last() =~= b@.take(i as int));
        h = (h ^ (b[i] as u64)).wrapping_mul(FNV_PRIME);
        i += 1;
    }
    assert(b@.take(i as int) =~= b@);
    h
}

/// A file's tag: the hash of what it holds, in quotes.
pub fn etag(b: &[u8]) -> (r: String)
    ensures
        r@ == "\""@ + hex(fnv(b@) as nat) + "\""@,
{
    let h = hex_string(fnv1a(b));
    cat3("\"", h.as_str(), "\"")
}

/// Compression is kept when it saves more than a tenth.
pub fn worth_gzip(raw: usize, gz: usize) -> (r: bool)
    ensures
        r == (gz * 10 < raw * 9),
{
    (gz as u128) * 10 < (raw as u128) * 9
}

// ------------------------------------------------------------------------ serving

/// The name of the file that a request's path asks for.
pub open spec fn wanted(path: Seq<char>) -> Seq<char> {
    let p = trim_start(path, Class::One('/'));
    if p.len() == 0 {
        "index.html"@
    } else {
        p
    }
}

/// The place of the first file with a name.
pub open spec fn file_at(v: Seq<AssetModel>, name: Seq<char>) -> Option<int>
    decreases v.len(),
{
    if v.len() == 0 {
        None
    } else if v[0].path == name {
        Some(0)
    } else {
        match file_at(v.skip(1), name) {
            Some(i) => Some(i + 1),
            None => None,
        }
    }
}

/// The file that answers a path: its own, or the page for a path unknown here
/// that the page itself will route.
pub open spec fn chosen(v: Seq<AssetModel>, path: Seq<char>) -> Option<int> {
    match file_at(v, wanted(path)) {
        Some(i) => Some(i),
        None => file_at(v, "index.html"@),
    }
}

/// What a request for a file is answered.
#[derive(Debug)]
pub enum Served {
    /// No page was built in.
    Unbuilt,
    /// The browser has this file already.
    Unchanged,
    /// A file, with its headers and its bytes.
    File { headers: Vec<(&'static str, &'static str)>, body: &'static [u8] },
}

pub ghost enum ServedModel {
    Unbuilt,
    Unchanged,
    File { headers: Seq<(Seq<char>, Seq<char>)>, body: Seq<u8> },
}

pub open spec fn headers_view(v: Seq<(&'static str, &'static str)>) -> Seq<(Seq<char>, Seq<char>)> {
    v.map_values(|p: (&'static str, &'static str)| (p.0@, p.1@))
}

impl View for Served {
    type V = ServedModel;

    open spec fn view(&self) -> ServedModel {
        match *self {
            Served::Unbuilt => ServedModel::Unbuilt,
            Served::Unchanged => ServedModel::Unchanged,
            Served::File { headers, body } => ServedModel::File { headers: headers_view(headers@), body: body@ },
        }
    }
}

/// A file as it goes out: files under `assets/` carry their hash in their name
/// and are cached for good, and a browser that takes gzip gets it where there is
/// any.
pub open spec fn file_answer(a: AssetModel, gzip: bool) -> ServedModel {
    let plain = seq![("content-type"@, a.mime), ("etag"@, a.etag)];
    let cached = if starts_with(a.path, "assets/"@) {
        plain.push(("cache-control"@, "public, max-age=31536000, immutable"@))
    } else {
        plain
    };
    match a.gzip {
        Some(z) if gzip => ServedModel::File { headers: cached.push(("content-encoding"@, "gzip"@)), body: z },
        _ => ServedModel::File { headers: cached, body: a.raw },
    }
}

/// What a request is answered: its path, the tag it has, the encodings it takes.
pub open spec fn answer_of(
    v: Seq<AssetModel>,
    path: Seq<char>,
    has: Option<Seq<char>>,
    takes: Option<Seq<char>>,
) -> ServedModel {
    match chosen(v, path) {
        None => ServedModel::Unbuilt,
        Some(i) => if has == Some(v[i].etag) {
            ServedModel::Unchanged
        } else {
            file_answer(
                v[i],
                match takes {
                    Some(t) => contains(t, "gzip"@),
                    None => false,
                },
            )
        },
    }
}

fn find_file(v: &[Asset], name: &str) -> (r: Option<usize>)
    ensures
        match r {
            Some(i) => file_at(assets_view(v@), name@) == Some(i as int) && i < v@.len(),
            None => file_at(assets_view(v@), name@) is None,
        },
{
    let ghost all = assets_view(v@);
    let mut i: usize = 0;
    assert(all.skip(0) =~= all);
    while i < v.len()
        invariant
            i <= v@.len(),
            all == assets_view(v@),
            file_at(all, name@) == (match file_at(all.skip(i as int), name@) {
                Some(k) => Some(k + i),
                None => None,
            }),
        decreases v@.len() - i,
    {
        assert(all.skip(i as int)[0] == v@[i as int]@);
        if same(v[i].path, name) {
            return Some(i);
        }
        assert(all.skip(i as int).skip(1) =~= all.skip(i + 1));
        i += 1;
    }
    None
}

/// The answer to a request for a file of the page.
pub fn static_asset(v: &[Asset], path: &str, has: Option<&str>, takes: Option<&str>) -> (r: Served)
    ensures
        r@ == answer_of(assets_view(v@), path@, opt_str(has), opt_str(takes)),
{
    let chars = to_chars(path);
    let p: &[char] = trim_start_of(chars.as_slice(), &Class::One('/'));
    let name: String = if p.len() == 0 {
        String::from_str("index.html")
    } else {
        from_chars(p)
    };
    let found: Option<usize> = match find_file(v, name.as_str()) {
        Some(i) => Some(i),
        None => find_file(v, "index.html"),
    };
    match found {
        None => Served::Unbuilt,
        Some(i) => {
            let a: &Asset = &v[i];
            assert(assets_view(v@)[i as int] == v@[i as int]@);
            let unchanged: bool = match has {
                Some(t) => same(t, a.etag),
                None => false,
            };
            if unchanged {
                return Served::Unchanged;
            }
            let gzip: bool = match takes {
                Some(t) => {
                    let tc = to_chars(t);
                    contains_str(tc.as_slice(), "gzip")
                },
                None => false,
            };
            let mut headers: Vec<(&'static str, &'static str)> = Vec::new();
            headers.push(("content-type", a.mime));
            headers.push(("etag", a.etag));
            assert(headers_view(headers@) =~= seq![("content-type"@, a@.mime), ("etag"@, a@.etag)]);
            let ac = to_chars(a.path);
            if starts_with_str(ac.as_slice(), "assets/") {
                let ghost was = headers@;
                headers.push(("cache-control", "public, max-age=31536000, immutable"));
                assert(headers_view(headers@) =~= headers_view(was).push(
                    ("cache-control"@, "public, max-age=31536000, immutable"@),
                ));
            }
            match a.gzip {
                Some(z) => {
                    if gzip {
                        let ghost was = headers@;
                        headers.push(("content-encoding", "gzip"));
                        assert(headers_view(headers@) =~= headers_view(was).push(
                            ("content-encoding"@, "gzip"@),
                        ));
                        Served::File { headers, body: z }
                    } else {
                        Served::File { headers, body: a.raw }
                    }
                },
                None => Served::File { headers, body: a.raw },
            }
        },
    }
}

/// Where a browser is sent while the setup access point is up: to the portal
/// whose address the access-point script leaves in a file. An absent or empty
/// file is no access point.
pub open spec fn portal_of(file: Option<Seq<char>>) -> Option<Seq<char>> {
    match file {
        Some(t) if trim(t).len() > 0 => Some(trim(t)),
        _ => None,
    }
}

pub fn portal(file: Option<&str>) -> (r: Option<String>)
    ensures
        crate::text::opt(r) == portal_of(opt_str(file)),
{
    match file {
        Some(t) => {
            let u = trim_str(t);
            if to_chars(u.as_str()).len() > 0 {
                Some(u)
            } else {
                None
            }
        },
        None => None,
    }
}

/// A browser that shows the tag of the file it would get is told to keep it, and
/// one that shows none or another gets the bytes.
pub proof fn law_a_tag_saves_the_bytes(
    v: Seq<AssetModel>,
    path: Seq<char>,
    has: Option<Seq<char>>,
    takes: Option<Seq<char>>,
)
    requires
        chosen(v, path) is Some,
    ensures
        answer_of(v, path, has, takes) is Unchanged <==> has == Some(v[chosen(v, path)->0].etag),
        answer_of(v, path, has, takes) !is Unbuilt,
{
}

} // verus!
