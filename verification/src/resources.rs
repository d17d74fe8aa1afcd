//! The resource resolver: serves mounted static content by logical mount
//! name, and rewrites HTML documents on the fly to inject the merged import
//! map and the address-scheme helper before the closing head tag.

use vstd::prelude::*;

use crate::invoke::{ResultKind, WireResponse};
use crate::json::{parsed_json, to_json_string, JsonValue};
use crate::registry::{json_matches_imports, Registry};
use crate::text::{str_concat, str_concat3, str_eq, str_to_bytes, strip_slashes, trim_leading_slashes};
use vstd::string::{StrSliceExecFns, StringExecFns};
use vstd::utf8::encode_utf8;

verus! {

/// A fully qualified address under a custom scheme: `scheme://url`.
pub fn custom_protocol(scheme: &str, url: &str) -> (r: String)
    ensures
        r@ == scheme@ + "://"@ + url@,
{
    str_concat3(scheme, "://", url)
}

/// Where a static-content request leads.
pub enum StaticRoute {
    MissingHost,
    UnknownHost,
    File { root: String, rel_path: String },
}

/// The index of the first `'/'` in `s`, or `-1` when there is none.
pub open spec fn first_slash(s: Seq<char>) -> int
    decreases s.len(),
{
    if s.len() == 0 {
        -1
    } else if s[0] == '/' {
        0
    } else {
        let r = first_slash(s.subrange(1, s.len() as int));
        if r == -1 {
            -1
        } else {
            1 + r
        }
    }
}

proof fn lemma_first_slash_at(s: Seq<char>, i: int)
    requires
        0 <= i <= s.len(),
        forall|j: int| 0 <= j < i ==> s[j] != '/',
        if i < s.len() {
            s[i] == '/'
        } else {
            true
        },
    ensures
        i < s.len() ==> first_slash(s) == i,
        i == s.len() ==> first_slash(s) == -1,
    decreases i,
{
    if i == 0 {
    } else {
        let tail = s.subrange(1, s.len() as int);
        lemma_first_slash_at(tail, i - 1);
    }
}

/// The host and path that a request designates. Under the host-based
/// addressing scheme they arrive separately; under the `localhost` form the
/// mount name is the first segment of the path.
pub open spec fn effective_target(host: Seq<char>, path: Seq<char>) -> (Seq<char>, Seq<char>) {
    if host == "localhost"@ {
        let t = strip_slashes(path);
        let k = first_slash(t);
        if k == -1 {
            (Seq::empty(), Seq::empty())
        } else {
            (t.subrange(0, k), t.subrange(k + 1, t.len() as int))
        }
    } else {
        (host, path)
    }
}

/// Resolves a static-content request to a mount: an empty mount name and a
/// name with no mount are protocol errors; otherwise the mount's directory
/// and the path relative to it, with leading slashes removed.
pub fn resolve_static(reg: &Registry, host: &str, path: &str) -> (r: StaticRoute)
    requires
        reg.inv(),
    ensures
        ({
            let (h, p) = effective_target(host@, path@);
            if h.len() == 0 {
                r matches StaticRoute::MissingHost
            } else if !reg.mounts_map().dom().contains(h) {
                r matches StaticRoute::UnknownHost
            } else {
                r matches StaticRoute::File { root, rel_path } && root == reg.mounts_map()[h]
                    && rel_path@ == strip_slashes(p)
            }
        }),
{
    let localhost_form = str_eq(host, "localhost");
    let (eff_host, eff_path): (String, String) = if localhost_form {
        let t = trim_leading_slashes(path);
        let n = t.as_str().unicode_len();
        let mut k: usize = 0;
        while k < n && t.as_str().get_char(k) != '/'
            invariant
                0 <= k <= n,
                n == t@.len(),
                forall|j: int| 0 <= j < k ==> t@[j] != '/',
            decreases n - k,
        {
            k = k + 1;
        }
        proof {
            lemma_first_slash_at(t@, k as int);
        }
        if k == n {
            (String::new(), String::new())
        } else {
            let h = t.as_str().substring_char(0, k).to_owned();
            let p = t.as_str().substring_char(k + 1, n).to_owned();
            (h, p)
        }
    } else {
        (host.to_owned(), path.to_owned())
    };
    if eff_host.as_str().unicode_len() == 0 {
        return StaticRoute::MissingHost;
    }
    match reg.lookup_mount(eff_host.as_str()) {
        None => StaticRoute::UnknownHost,
        Some(dir) => {
            let root = dir.clone();
            let rel_path = trim_leading_slashes(eff_path.as_str());
            StaticRoute::File { root, rel_path }
        },
    }
}

/// A directory path joined with a relative path by a single `'/'`.
pub fn joined_path(root: &str, rel: &str) -> (r: String)
    ensures
        r@ == root@ + "/"@ + rel@,
{
    str_concat3(root, "/", rel)
}

/// The content type that the file's path implies, as the `mime_guess` crate
/// derives it from the path's extension, `application/octet-stream` when it
/// knows none.
pub uninterp spec fn mime_of(path: Seq<char>) -> Seq<char>;

/// Relies on `mime_guess::from_path`: the guess is a function of the path
/// alone.
#[verifier::external_body]
pub fn guess_mime(path: &str) -> (r: String)
    ensures
        r@ == mime_of(path@),
{
    mime_guess::from_path(path).first_or_octet_stream().to_string()
}

/// Relies on `String::from_utf8`: the characters of a decoded string encode
/// back to the given bytes; decoding fails exactly when no character
/// sequence encodes to them, and then hands the bytes back.
#[verifier::external_body]
pub fn bytes_to_string(bytes: Vec<u8>) -> (r: Result<String, Vec<u8>>)
    ensures
        match r {
            Ok(s) => encode_utf8(s@) == bytes@,
            Err(b) => b@ == bytes@ && (forall|s: Seq<char>| encode_utf8(s) != bytes@),
        },
{
    String::from_utf8(bytes).map_err(|e| e.into_bytes())
}

/// A content type that names an HTML document.
pub open spec fn is_html_mime(m: Seq<char>) -> bool {
    m == "text/html"@ || m == "text/html; charset=utf-8"@
}

/// The script block inserted into served HTML: the import map, and a helper
/// that builds fully qualified addresses for the platform's scheme.
pub open spec fn spec_import_block(map_json: Seq<char>) -> Seq<char> {
    "\n<script type=\"importmap\">\n{\n  \"imports\": "@ + map_json
        + "\n}\n</script>\n<script>\n  Object.defineProperty(window, 'CUSTOM_PROTOCOL', {\n    value: (protocol, url) => `${protocol}://${url}`\n  })\n</script>\n"@
}

/// Builds the injected script block around the import-map JSON.
pub fn import_block(map_json: &str) -> (r: String)
    ensures
        r@ == spec_import_block(map_json@),
{
    let head = str_concat("\n<script type=\"importmap\">\n{\n  \"imports\": ", map_json);
    head.concat(
        "\n}\n</script>\n<script>\n  Object.defineProperty(window, 'CUSTOM_PROTOCOL', {\n    value: (protocol, url) => `${protocol}://${url}`\n  })\n</script>\n",
    )
}

/// Whether the closing head tag stands at `i`.
pub open spec fn head_tag_at(s: Seq<char>, i: int) -> bool {
    0 <= i && i + 7 <= s.len() && s.subrange(i, i + 7) == "</head>"@
}

/// The index of the first closing head tag, or `-1` when there is none.
pub open spec fn head_index(s: Seq<char>) -> int
    decreases s.len(),
{
    if s.len() < 7 {
        -1
    } else if s.subrange(0, 7) == "</head>"@ {
        0
    } else {
        let r = head_index(s.subrange(1, s.len() as int));
        if r == -1 {
            -1
        } else {
            1 + r
        }
    }
}

/// `s` with `block` inserted before the first closing head tag; `s` itself
/// when there is none.
pub open spec fn inject_at_head(s: Seq<char>, block: Seq<char>) -> Seq<char> {
    let i = head_index(s);
    if i < 0 {
        s
    } else {
        s.subrange(0, i) + block + s.subrange(i, s.len() as int)
    }
}

proof fn lemma_head_index_at(s: Seq<char>, i: int)
    requires
        0 <= i <= s.len(),
        forall|j: int| 0 <= j < i ==> !head_tag_at(s, j),
        i + 7 <= s.len() ==> head_tag_at(s, i),
    ensures
        i + 7 <= s.len() ==> head_index(s) == i,
        i + 7 > s.len() ==> head_index(s) == -1,
    decreases i + 1,
{
    if s.len() < 7 {
    } else if i == 0 {
        if head_tag_at(s, 0) {
            assert(s.subrange(0, 7) == "</head>"@);
        }
    } else {
        assert(!head_tag_at(s, 0));
        assert(s.subrange(0, 7) != "</head>"@);
        let tail = s.subrange(1, s.len() as int);
        assert forall|j: int| 0 <= j < i - 1 implies !head_tag_at(tail, j) by {
            assert(!head_tag_at(s, j + 1));
            if 0 <= j && j + 7 <= tail.len() {
                assert(tail.subrange(j, j + 7) =~= s.subrange(j + 1, j + 8));
            }
        }
        if i - 1 + 7 <= tail.len() {
            assert(head_tag_at(s, i));
            assert(tail.subrange(i - 1, i + 6) =~= s.subrange(i, i + 7));
            assert(head_tag_at(tail, i - 1));
        }
        lemma_head_index_at(tail, i - 1);
    }
}

/// Checks for the closing head tag at position `i`.
fn head_tag_check(s: &str, i: usize, n: usize) -> (r: bool)
    requires
        n == s@.len(),
        i + 7 <= n,
    ensures
        r == head_tag_at(s@, i as int),
{
    proof {
        reveal_strlit("</head>");
    }
    let r = s.get_char(i) == '<' && s.get_char(i + 1) == '/' && s.get_char(i + 2) == 'h'
        && s.get_char(i + 3) == 'e' && s.get_char(i + 4) == 'a' && s.get_char(i + 5) == 'd'
        && s.get_char(i + 6) == '>';
    proof {
        if r {
            assert(s@.subrange(i as int, i + 7 as int) =~= "</head>"@);
        } else {
            if s@.subrange(i as int, i + 7 as int) == "</head>"@ {
                assert(s@[i as int] == "</head>"@[0]);
                assert(s@[i + 1] == "</head>"@[1]);
                assert(s@[i + 2] == "</head>"@[2]);
                assert(s@[i + 3] == "</head>"@[3]);
                assert(s@[i + 4] == "</head>"@[4]);
                assert(s@[i + 5] == "</head>"@[5]);
                assert(s@[i + 6] == "</head>"@[6]);
            }
        }
    }
    r
}

/// Inserts `block` before the first closing head tag of `html`; a document
/// with none is handed back unchanged.
pub fn inject_before_head(html: &str, block: &str) -> (r: String)
    ensures
        r@ == inject_at_head(html@, block@),
{
    let n = html.unicode_len();
    if n < 7 {
        proof {
            assert(head_index(html@) == -1);
        }
        return html.to_owned();
    }
    let mut i: usize = 0;
    while i <= n - 7 && !head_tag_check(html, i, n)
        invariant
            0 <= i <= n - 7 + 1,
            n == html@.len(),
            7 <= n,
            forall|j: int| 0 <= j < i ==> !head_tag_at(html@, j),
        decreases n - i,
    {
        i = i + 1;
    }
    proof {
        lemma_head_index_at(html@, i as int);
    }
    if i <= n - 7 {
        let prefix = html.substring_char(0, i).to_owned();
        let suffix = html.substring_char(i, n);
        let joined = prefix.concat(block);
        let whole = joined.concat(suffix);
        whole
    } else {
        html.to_owned()
    }
}

/// How the embedder's attempt to read the resolved file ended.
pub enum FileOutcome {
    NotFound,
    ReadFailed(String),
    Read(Vec<u8>),
}

/// The body served for HTML content: the injection applied to a decoding of
/// the bytes, or the bytes themselves when they are not UTF-8.
pub open spec fn html_body_of(content: Seq<u8>, block: Seq<char>, body: Seq<u8>) -> bool {
    (exists|s: Seq<char>|
        encode_utf8(s) == content && body == encode_utf8(inject_at_head(s, block))) || ((forall|
        s: Seq<char>,
    |
        encode_utf8(s) != content) && body == content)
}

/// Builds the response for one static-content request that resolved to a
/// file: a missing file is 404, a failed read 500, and content is served
/// under the content type its path implies — HTML documents with the import
/// map and the address helper injected before the closing head tag.
pub fn build_static_response(reg: &Registry, full_path: &str, outcome: FileOutcome) -> (r:
    WireResponse)
    requires
        reg.inv(),
    ensures
        match outcome {
            FileOutcome::NotFound => r.status == 404 && r.body@ == encode_utf8("File not found"@),
            FileOutcome::ReadFailed(m) => r.status == 500 && r.body@ == encode_utf8(m@),
            FileOutcome::Read(content) => {
                &&& r.status == 200
                &&& r.content_type@ == mime_of(full_path@)
                &&& !is_html_mime(mime_of(full_path@)) ==> r.body@ == content@
                &&& is_html_mime(mime_of(full_path@)) ==> exists|map_json: Seq<char>, v: JsonValue|
                    #![trigger parsed_json(encode_utf8(map_json)), json_matches_imports(v, reg.imports_kv())]
                    parsed_json(encode_utf8(map_json)) == Ok::<JsonValue, Seq<char>>(v)
                        && json_matches_imports(v, reg.imports_kv()) && html_body_of(
                        content@,
                        spec_import_block(map_json),
                        r.body@,
                    )
            },
        },
{
    match outcome {
        FileOutcome::NotFound => WireResponse {
            status: 404,
            result_header: ResultKind::ErrMark,
            content_type: String::new(),
            body: str_to_bytes("File not found"),
        },
        FileOutcome::ReadFailed(m) => WireResponse {
            status: 500,
            result_header: ResultKind::ErrMark,
            content_type: String::new(),
            body: str_to_bytes(m.as_str()),
        },
        FileOutcome::Read(content) => {
            let mime = guess_mime(full_path);
            let html_mime = str_eq(mime.as_str(), "text/html") || str_eq(
                mime.as_str(),
                "text/html; charset=utf-8",
            );
            if html_mime {
                let ghost content_bytes = content@;
                let map_value = reg.import_map_json();
                let map_json = to_json_string(&map_value);
                match bytes_to_string(content) {
                    Ok(html) => {
                        let block = import_block(map_json.as_str());
                        let rendered = inject_before_head(html.as_str(), block.as_str());
                        let body = str_to_bytes(rendered.as_str());
                        proof {
                            let mj = map_json@;
                            assert(parsed_json(encode_utf8(mj)) == Ok::<JsonValue, Seq<char>>(
                                map_value,
                            ));
                            assert(json_matches_imports(map_value, reg.imports_kv()));
                            assert(encode_utf8(html@) == content_bytes && body@ == encode_utf8(
                                inject_at_head(html@, spec_import_block(mj)),
                            ));
                            assert(html_body_of(content_bytes, spec_import_block(mj), body@));
                        }
                        WireResponse {
                            status: 200,
                            result_header: ResultKind::OkMark,
                            content_type: mime,
                            body,
                        }
                    },
                    Err(raw) => {
                        proof {
                            let mj = map_json@;
                            assert(parsed_json(encode_utf8(mj)) == Ok::<JsonValue, Seq<char>>(
                                map_value,
                            ));
                            assert(json_matches_imports(map_value, reg.imports_kv()));
                            assert(html_body_of(content_bytes, spec_import_block(mj), raw@));
                        }
                        WireResponse {
                            status: 200,
                            result_header: ResultKind::OkMark,
                            content_type: mime,
                            body: raw,
                        }
                    },
                }
            } else {
                WireResponse {
                    status: 200,
                    result_header: ResultKind::OkMark,
                    content_type: mime,
                    body: content,
                }
            }
        },
    }
}

} // verus!
