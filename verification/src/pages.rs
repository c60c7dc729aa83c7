//! The static-site server of the inspector: which answer a request gets and
//! which content type a served file has.
use vstd::prelude::*;
use crate::text;

verus! {

broadcast use vstd::string::group_string_axioms;

/// Index of the last occurrence of `c` in `s`, or -1.
pub open spec fn last_index_of(s: Seq<char>, c: char) -> int
    decreases s.len(),
{
    if s.len() == 0 {
        -1
    } else if s.last() == c {
        s.len() - 1
    } else {
        last_index_of(s.drop_last(), c)
    }
}

/// The last occurrence of `c` is in range, holds `c`, and nothing after it is `c`.
pub proof fn lemma_last_index_of(s: Seq<char>, c: char)
    ensures
        -1 <= last_index_of(s, c) < s.len(),
        last_index_of(s, c) >= 0 ==> s[last_index_of(s, c)] == c,
        forall|j: int| last_index_of(s, c) < j < s.len() ==> s[j] != c,
    decreases s.len(),
{
    if s.len() > 0 && s.last() != c {
        lemma_last_index_of(s.drop_last(), c);
        assert forall|j: int| last_index_of(s, c) < j < s.len() implies s[j] != c by {
            if j < s.len() - 1 {
                assert(s[j] == s.drop_last()[j]);
            }
        }
    }
}

/// An index holding `c` with no `c` after it is the last occurrence.
pub proof fn lemma_last_index_unique(s: Seq<char>, c: char, k: int)
    requires
        -1 <= k < s.len(),
        k >= 0 ==> s[k] == c,
        forall|j: int| k < j < s.len() ==> s[j] != c,
    ensures
        last_index_of(s, c) == k,
    decreases s.len(),
{
    if s.len() > 0 && k < s.len() - 1 {
        lemma_last_index_unique(s.drop_last(), c, k);
    }
}

/// The last component of a path, as `std::path::Path::file_name` gives it:
/// trailing slashes and `.` components are skipped; a final `..` or a path
/// without components has no file name.
pub open spec fn spec_file_name(p: Seq<char>) -> Option<Seq<char>>
    decreases p.len(),
{
    if p.len() == 0 {
        None
    } else if p.last() == '/' {
        spec_file_name(p.drop_last())
    } else {
        let k = last_index_of(p, '/') + 1;
        let seg = p.subrange(k, p.len() as int);
        if seg == seq!['.'] {
            proof {
                lemma_last_index_of(p, '/');
            }
            spec_file_name(p.subrange(0, k))
        } else if seg == seq!['.', '.'] {
            None
        } else {
            Some(seg)
        }
    }
}

/// The extension of a file name, as `std::path::Path::extension` gives it: the
/// part after the last `.`, unless there is no `.` or the only one starts the name.
pub open spec fn spec_name_extension(name: Seq<char>) -> Option<Seq<char>> {
    let i = last_index_of(name, '.');
    if i <= 0 {
        None
    } else {
        Some(name.subrange(i + 1, name.len() as int))
    }
}

/// As `Path::extension` documents it: a name has no extension exactly when it
/// holds no `.` past its first character; otherwise the extension is the part
/// after the final `.`, which holds no `.` and is preceded by a non-empty stem.
pub proof fn lemma_name_extension(name: Seq<char>)
    ensures
        spec_name_extension(name) is None <==> forall|j: int| 1 <= j < name.len() ==> name[j] != '.',
        spec_name_extension(name) matches Some(e) ==> {
            &&& name.len() - e.len() - 1 >= 1
            &&& name == name.take(name.len() - e.len() - 1) + seq!['.'] + e
            &&& forall|j: int| 0 <= j < e.len() ==> e[j] != '.'
        },
{
    lemma_last_index_of(name, '.');
    let i = last_index_of(name, '.');
    if i > 0 {
        let e = name.subrange(i + 1, name.len() as int);
        assert(name =~= name.take(i) + seq!['.'] + e);
        assert forall|j: int| 0 <= j < e.len() implies e[j] != '.' by {
            assert(e[j] == name[i + 1 + j]);
        }
    }
}

/// The extension of the file that a path names.
pub open spec fn spec_path_extension(p: Seq<char>) -> Option<Seq<char>> {
    match spec_file_name(p) {
        Some(name) => spec_name_extension(name),
        None => None,
    }
}

/// Bounds of the last component of `cs` (see `spec_file_name`).
fn file_name_bounds(cs: &Vec<char>) -> (r: Option<(usize, usize)>)
    ensures
        match r {
            Some((a, b)) => a <= b <= cs@.len() && spec_file_name(cs@) == Some(
                cs@.subrange(a as int, b as int),
            ),
            None => spec_file_name(cs@) is None,
        },
{
    let mut end: usize = cs.len();
    assert(cs@.take(end as int) =~= cs@);
    loop
        invariant
            end <= cs@.len(),
            spec_file_name(cs@) == spec_file_name(cs@.take(end as int)),
        decreases end,
    {
        if end == 0 {
            return None;
        }
        if cs[end - 1] == '/' {
            assert(cs@.take(end as int).drop_last() =~= cs@.take(end - 1));
            end = end - 1;
        } else {
            let ghost q = cs@.take(end as int);
            let mut start: usize = end - 1;
            while start > 0 && cs[start - 1] != '/'
                invariant
                    start < end,
                    end <= cs@.len(),
                    q == cs@.take(end as int),
                    forall|j: int| start <= j < end ==> q[j] != '/',
                decreases start,
            {
                start = start - 1;
            }
            proof {
                lemma_last_index_unique(q, '/', start - 1);
                assert(q.subrange(start as int, end as int) =~= cs@.subrange(
                    start as int,
                    end as int,
                ));
            }
            if end - start == 1 && cs[start] == '.' {
                assert(q.subrange(start as int, end as int) =~= seq!['.']);
                assert(q.subrange(0, start as int) =~= cs@.take(start as int));
                end = start;
            } else if end - start == 2 && cs[start] == '.' && cs[start + 1] == '.' {
                assert(q.subrange(start as int, end as int) =~= seq!['.', '.']);
                return None;
            } else {
                assert(q.subrange(start as int, end as int) != seq!['.']) by {
                    if end - start == 1 {
                        assert(q.subrange(start as int, end as int)[0] == cs@[start as int]);
                    }
                }
                assert(q.subrange(start as int, end as int) != seq!['.', '.']) by {
                    if end - start == 2 {
                        assert(q.subrange(start as int, end as int)[0] == cs@[start as int]);
                        assert(q.subrange(start as int, end as int)[1] == cs@[start + 1]);
                    }
                }
                return Some((start, end));
            }
        }
    }
}

/// The extension of the file that `path` names, as `Path::extension` gives it.
pub fn path_extension(path: &str) -> (r: Option<String>)
    ensures
        match r {
            Some(e) => spec_path_extension(path@) == Some(e@),
            None => spec_path_extension(path@) is None,
        },
{
    let cs = text::chars_of(path);
    match file_name_bounds(&cs) {
        None => None,
        Some((a, b)) => {
            let ghost name = cs@.subrange(a as int, b as int);
            let mut i: usize = b;
            while i > a && cs[i - 1] != '.'
                invariant
                    a <= i <= b <= cs@.len(),
                    name == cs@.subrange(a as int, b as int),
                    forall|j: int| i - a <= j < name.len() ==> name[j] != '.',
                decreases i,
            {
                i = i - 1;
            }
            proof {
                lemma_last_index_unique(name, '.', i - a - 1);
            }
            if i - a <= 1 {
                None
            } else {
                let ext = text::string_of(&cs.as_slice()[i..b]);
                assert(name.subrange(i - a, name.len() as int) =~= cs@.subrange(i as int, b as int));
                Some(ext)
            }
        }
    }
}

/// Content types that the site serves.
#[derive(Debug, Clone, Copy, PartialEq, Eq, Structural)]
pub enum ContentType {
    TextCssUtf8,
    ImageGif,
    TextHtmlUtf8,
    ImageJpeg,
    TextJavascript,
    ApplicationJson,
    ImagePng,
    ImageSvg,
    ApplicationWasm,
    ApplicationOctetStream,
}

impl ContentType {
    /// The media type as sent in a `Content-Type` header.
    pub open spec fn spec_text(self) -> Seq<char> {
        match self {
            ContentType::TextCssUtf8 => "text/css; charset=utf-8"@,
            ContentType::ImageGif => "image/gif"@,
            ContentType::TextHtmlUtf8 => "text/html; charset=utf-8"@,
            ContentType::ImageJpeg => "image/jpeg"@,
            ContentType::TextJavascript => "text/javascript"@,
            ContentType::ApplicationJson => "application/json"@,
            ContentType::ImagePng => "image/png"@,
            ContentType::ImageSvg => "image/svg+xml"@,
            ContentType::ApplicationWasm => "application/wasm"@,
            ContentType::ApplicationOctetStream => "application/octet-stream"@,
        }
    }

    /// The media type as sent in a `Content-Type` header.
    pub fn text(&self) -> (t: String)
        ensures
            t@ == self.spec_text(),
    {
        match self {
            ContentType::TextCssUtf8 => text::owned("text/css; charset=utf-8"),
            ContentType::ImageGif => text::owned("image/gif"),
            ContentType::TextHtmlUtf8 => text::owned("text/html; charset=utf-8"),
            ContentType::ImageJpeg => text::owned("image/jpeg"),
            ContentType::TextJavascript => text::owned("text/javascript"),
            ContentType::ApplicationJson => text::owned("application/json"),
            ContentType::ImagePng => text::owned("image/png"),
            ContentType::ImageSvg => text::owned("image/svg+xml"),
            ContentType::ApplicationWasm => text::owned("application/wasm"),
            ContentType::ApplicationOctetStream => text::owned("application/octet-stream"),
        }
    }
}

/// What `str::to_lowercase` returns for the given characters.
pub uninterp spec fn lowercase(s: Seq<char>) -> Seq<char>;

/// `c` with an ASCII capital letter replaced by its small letter.
pub open spec fn ascii_lower_char(c: char) -> char {
    if 'A' <= c <= 'Z' {
        ((c as u32) + 32) as char
    } else {
        c
    }
}

/// Every ASCII capital letter of `s` replaced by its small letter.
pub open spec fn ascii_lower(s: Seq<char>) -> Seq<char> {
    s.map_values(|c: char| ascii_lower_char(c))
}

/// Calls `str::to_lowercase`, the Unicode lowercase mapping; its result is a
/// function of the characters alone, named `lowercase`. Claimed besides: on an
/// ASCII string it is the ASCII lowercase, as the Unicode mapping of ASCII
/// letters is (std documents `"HELLO".to_lowercase() == "hello"`).
#[verifier::external_body]
fn to_lowercase(s: &str) -> (r: String)
    ensures
        r@ == lowercase(s@),
        vstd::utf8::is_ascii_chars(s@) ==> r@ == ascii_lower(s@),
{
    s.to_lowercase()
}

/// The content type of a file with the lowercase extension `ext`.
pub open spec fn spec_type_of_extension(ext: Seq<char>, default: ContentType) -> ContentType {
    if ext == "css"@ {
        ContentType::TextCssUtf8
    } else if ext == "gif"@ {
        ContentType::ImageGif
    } else if ext == "html"@ || ext == "htm"@ {
        ContentType::TextHtmlUtf8
    } else if ext == "jpeg"@ || ext == "jpg"@ {
        ContentType::ImageJpeg
    } else if ext == "js"@ {
        ContentType::TextJavascript
    } else if ext == "json"@ {
        ContentType::ApplicationJson
    } else if ext == "png"@ {
        ContentType::ImagePng
    } else if ext == "svg"@ {
        ContentType::ImageSvg
    } else if ext == "wasm"@ {
        ContentType::ApplicationWasm
    } else {
        default
    }
}

/// The `Content-Type` of a known file names its extension as the registered
/// media subtype: gif, png and jpeg files are `image/` followed by the
/// extension (`jpg` is `jpeg`, `svg` is `svg+xml`); json and wasm files are
/// `application/` followed by it; css and html files (`htm` is `html`) are
/// `text/` followed by it, with a UTF-8 charset; js files are
/// `text/javascript`. A file of no known type is sent as
/// `application/octet-stream` when that is the default.
pub proof fn lemma_media_type_of_extension(default: ContentType)
    ensures
        spec_type_of_extension("gif"@, default).spec_text() == "image/"@ + "gif"@,
        spec_type_of_extension("png"@, default).spec_text() == "image/"@ + "png"@,
        spec_type_of_extension("jpeg"@, default).spec_text() == "image/"@ + "jpeg"@,
        spec_type_of_extension("jpg"@, default).spec_text() == "image/"@ + "jpeg"@,
        spec_type_of_extension("svg"@, default).spec_text() == "image/"@ + "svg"@ + "+xml"@,
        spec_type_of_extension("json"@, default).spec_text() == "application/"@ + "json"@,
        spec_type_of_extension("wasm"@, default).spec_text() == "application/"@ + "wasm"@,
        spec_type_of_extension("css"@, default).spec_text() == "text/"@ + "css"@
            + "; charset=utf-8"@,
        spec_type_of_extension("html"@, default).spec_text() == "text/"@ + "html"@
            + "; charset=utf-8"@,
        spec_type_of_extension("htm"@, default).spec_text() == "text/"@ + "html"@
            + "; charset=utf-8"@,
        spec_type_of_extension("js"@, default).spec_text() == "text/"@ + "javascript"@,
        spec_type_of_extension("bin"@, ContentType::ApplicationOctetStream).spec_text()
            == "application/"@ + "octet-stream"@,
{
    assert(spec_type_of_extension("gif"@, default) == ContentType::ImageGif) by {
        reveal_strlit("css");
        reveal_strlit("gif");
        assert("gif"@[0] != "css"@[0]);
    }
    assert(spec_type_of_extension("png"@, default) == ContentType::ImagePng) by {
        reveal_strlit("css");
        reveal_strlit("gif");
        reveal_strlit("html");
        reveal_strlit("htm");
        reveal_strlit("jpeg");
        reveal_strlit("jpg");
        reveal_strlit("js");
        reveal_strlit("json");
        reveal_strlit("png");
        assert("png"@[0] != "css"@[0]);
        assert("png"@[0] != "gif"@[0]);
        assert("png"@[0] != "htm"@[0]);
        assert("png"@[0] != "jpg"@[0]);
        assert("png"@.len() != "html"@.len());
        assert("png"@.len() != "jpeg"@.len());
        assert("png"@.len() != "js"@.len());
        assert("png"@.len() != "json"@.len());
    }
    assert(spec_type_of_extension("jpeg"@, default) == ContentType::ImageJpeg) by {
        reveal_strlit("css");
        reveal_strlit("gif");
        reveal_strlit("html");
        reveal_strlit("htm");
        reveal_strlit("jpeg");
        assert("jpeg"@[0] != "html"@[0]);
        assert("jpeg"@.len() != "css"@.len());
        assert("jpeg"@.len() != "gif"@.len());
        assert("jpeg"@.len() != "htm"@.len());
    }
    assert(spec_type_of_extension("jpg"@, default) == ContentType::ImageJpeg) by {
        reveal_strlit("css");
        reveal_strlit("gif");
        reveal_strlit("html");
        reveal_strlit("htm");
        reveal_strlit("jpeg");
        reveal_strlit("jpg");
        assert("jpg"@[0] != "css"@[0]);
        assert("jpg"@[0] != "gif"@[0]);
        assert("jpg"@[0] != "htm"@[0]);
        assert("jpg"@.len() != "html"@.len());
        assert("jpg"@.len() != "jpeg"@.len());
    }
    assert(spec_type_of_extension("svg"@, default) == ContentType::ImageSvg) by {
        reveal_strlit("css");
        reveal_strlit("gif");
        reveal_strlit("html");
        reveal_strlit("htm");
        reveal_strlit("jpeg");
        reveal_strlit("jpg");
        reveal_strlit("js");
        reveal_strlit("json");
        reveal_strlit("png");
        reveal_strlit("svg");
        assert("svg"@[0] != "css"@[0]);
        assert("svg"@[0] != "gif"@[0]);
        assert("svg"@[0] != "htm"@[0]);
        assert("svg"@[0] != "jpg"@[0]);
        assert("svg"@[0] != "png"@[0]);
        assert("svg"@.len() != "html"@.len());
        assert("svg"@.len() != "jpeg"@.len());
        assert("svg"@.len() != "js"@.len());
        assert("svg"@.len() != "json"@.len());
    }
    assert(spec_type_of_extension("json"@, default) == ContentType::ApplicationJson) by {
        reveal_strlit("css");
        reveal_strlit("gif");
        reveal_strlit("html");
        reveal_strlit("htm");
        reveal_strlit("jpeg");
        reveal_strlit("jpg");
        reveal_strlit("js");
        reveal_strlit("json");
        assert("json"@[0] != "html"@[0]);
        assert("json"@[1] != "jpeg"@[1]);
        assert("json"@.len() != "css"@.len());
        assert("json"@.len() != "gif"@.len());
        assert("json"@.len() != "htm"@.len());
        assert("json"@.len() != "jpg"@.len());
        assert("json"@.len() != "js"@.len());
    }
    assert(spec_type_of_extension("wasm"@, default) == ContentType::ApplicationWasm) by {
        reveal_strlit("css");
        reveal_strlit("gif");
        reveal_strlit("html");
        reveal_strlit("htm");
        reveal_strlit("jpeg");
        reveal_strlit("jpg");
        reveal_strlit("js");
        reveal_strlit("json");
        reveal_strlit("png");
        reveal_strlit("svg");
        reveal_strlit("wasm");
        assert("wasm"@[0] != "html"@[0]);
        assert("wasm"@[0] != "jpeg"@[0]);
        assert("wasm"@[0] != "json"@[0]);
        assert("wasm"@.len() != "css"@.len());
        assert("wasm"@.len() != "gif"@.len());
        assert("wasm"@.len() != "htm"@.len());
        assert("wasm"@.len() != "jpg"@.len());
        assert("wasm"@.len() != "js"@.len());
        assert("wasm"@.len() != "png"@.len());
        assert("wasm"@.len() != "svg"@.len());
    }
    assert(spec_type_of_extension("css"@, default) == ContentType::TextCssUtf8) by {
        reveal_strlit("css");
    }
    assert(spec_type_of_extension("html"@, default) == ContentType::TextHtmlUtf8) by {
        reveal_strlit("css");
        reveal_strlit("gif");
        reveal_strlit("html");
        assert("html"@.len() != "css"@.len());
        assert("html"@.len() != "gif"@.len());
    }
    assert(spec_type_of_extension("htm"@, default) == ContentType::TextHtmlUtf8) by {
        reveal_strlit("css");
        reveal_strlit("gif");
        reveal_strlit("html");
        reveal_strlit("htm");
        assert("htm"@[0] != "css"@[0]);
        assert("htm"@[0] != "gif"@[0]);
        assert("htm"@.len() != "html"@.len());
    }
    assert(spec_type_of_extension("js"@, default) == ContentType::TextJavascript) by {
        reveal_strlit("css");
        reveal_strlit("gif");
        reveal_strlit("html");
        reveal_strlit("htm");
        reveal_strlit("jpeg");
        reveal_strlit("jpg");
        reveal_strlit("js");
        assert("js"@.len() != "css"@.len());
        assert("js"@.len() != "gif"@.len());
        assert("js"@.len() != "html"@.len());
        assert("js"@.len() != "htm"@.len());
        assert("js"@.len() != "jpeg"@.len());
        assert("js"@.len() != "jpg"@.len());
    }
    assert(spec_type_of_extension("bin"@, ContentType::ApplicationOctetStream)
        == ContentType::ApplicationOctetStream) by {
        reveal_strlit("css");
        reveal_strlit("gif");
        reveal_strlit("html");
        reveal_strlit("htm");
        reveal_strlit("jpeg");
        reveal_strlit("jpg");
        reveal_strlit("js");
        reveal_strlit("json");
        reveal_strlit("png");
        reveal_strlit("svg");
        reveal_strlit("wasm");
        reveal_strlit("bin");
        assert("bin"@[0] != "css"@[0]);
        assert("bin"@[0] != "gif"@[0]);
        assert("bin"@[0] != "htm"@[0]);
        assert("bin"@[0] != "jpg"@[0]);
        assert("bin"@[0] != "png"@[0]);
        assert("bin"@[0] != "svg"@[0]);
        assert("bin"@.len() != "html"@.len());
        assert("bin"@.len() != "jpeg"@.len());
        assert("bin"@.len() != "js"@.len());
        assert("bin"@.len() != "json"@.len());
        assert("bin"@.len() != "wasm"@.len());
    }
    assert("image/gif"@ =~= "image/"@ + "gif"@) by {
        reveal_strlit("image/gif");
        reveal_strlit("image/");
        reveal_strlit("gif");
    }
    assert("image/png"@ =~= "image/"@ + "png"@) by {
        reveal_strlit("image/png");
        reveal_strlit("image/");
        reveal_strlit("png");
    }
    assert("image/jpeg"@ =~= "image/"@ + "jpeg"@) by {
        reveal_strlit("image/jpeg");
        reveal_strlit("image/");
        reveal_strlit("jpeg");
    }
    assert("image/svg+xml"@ =~= "image/"@ + "svg"@ + "+xml"@) by {
        reveal_strlit("image/svg+xml");
        reveal_strlit("image/");
        reveal_strlit("svg");
        reveal_strlit("+xml");
    }
    assert("application/json"@ =~= "application/"@ + "json"@) by {
        reveal_strlit("application/json");
        reveal_strlit("application/");
        reveal_strlit("json");
    }
    assert("application/wasm"@ =~= "application/"@ + "wasm"@) by {
        reveal_strlit("application/wasm");
        reveal_strlit("application/");
        reveal_strlit("wasm");
    }
    assert("text/css; charset=utf-8"@ =~= "text/"@ + "css"@ + "; charset=utf-8"@) by {
        reveal_strlit("text/css; charset=utf-8");
        reveal_strlit("text/");
        reveal_strlit("css");
        reveal_strlit("; charset=utf-8");
    }
    assert("text/html; charset=utf-8"@ =~= "text/"@ + "html"@ + "; charset=utf-8"@) by {
        reveal_strlit("text/html; charset=utf-8");
        reveal_strlit("text/");
        reveal_strlit("html");
        reveal_strlit("; charset=utf-8");
    }
    assert("text/javascript"@ =~= "text/"@ + "javascript"@) by {
        reveal_strlit("text/javascript");
        reveal_strlit("text/");
        reveal_strlit("javascript");
    }
    assert("application/octet-stream"@ =~= "application/"@ + "octet-stream"@) by {
        reveal_strlit("application/octet-stream");
        reveal_strlit("application/");
        reveal_strlit("octet-stream");
    }
}

/// The content type of a file with the lowercase extension `ext`, `default` for
/// extensions that are not known.
pub fn type_of_extension(ext: &str, default: ContentType) -> (t: ContentType)
    ensures
        t == spec_type_of_extension(ext@, default),
{
    if text::same_text(ext, "css") {
        ContentType::TextCssUtf8
    } else if text::same_text(ext, "gif") {
        ContentType::ImageGif
    } else if text::same_text(ext, "html") || text::same_text(ext, "htm") {
        ContentType::TextHtmlUtf8
    } else if text::same_text(ext, "jpeg") || text::same_text(ext, "jpg") {
        ContentType::ImageJpeg
    } else if text::same_text(ext, "js") {
        ContentType::TextJavascript
    } else if text::same_text(ext, "json") {
        ContentType::ApplicationJson
    } else if text::same_text(ext, "png") {
        ContentType::ImagePng
    } else if text::same_text(ext, "svg") {
        ContentType::ImageSvg
    } else if text::same_text(ext, "wasm") {
        ContentType::ApplicationWasm
    } else {
        default
    }
}

/// Content type of the file `filename`: chosen by its extension, compared
/// without regard to case; `default` when it has no known extension.
pub open spec fn spec_file_mimetype(filename: Seq<char>, default: ContentType) -> ContentType {
    match spec_path_extension(filename) {
        Some(ext) => spec_type_of_extension(lowercase(ext), default),
        None => default,
    }
}

/// Content type of the file `filename`, `default` when its extension is not known.
pub fn file_mimetype(filename: &str, default: ContentType) -> (t: ContentType)
    ensures
        t == spec_file_mimetype(filename@, default),
        vstd::utf8::is_ascii_chars(filename@) ==> t == spec_ascii_file_mimetype(filename@, default),
{
    proof {
        if vstd::utf8::is_ascii_chars(filename@) {
            lemma_path_extension_ascii(filename@);
        }
    }
    match path_extension(filename) {
        Some(ext) => {
            let lowered = to_lowercase(ext.as_str());
            type_of_extension(lowered.as_str(), default)
        },
        None => default,
    }
}

/// An extension, if any, with ASCII capitals lowered.
pub open spec fn lower_extension(e: Option<Seq<char>>) -> Option<Seq<char>> {
    match e {
        Some(x) => Some(ascii_lower(x)),
        None => None,
    }
}

proof fn lemma_lower_last_index(s: Seq<char>, c: char)
    requires
        c == '/' || c == '.',
    ensures
        last_index_of(ascii_lower(s), c) == last_index_of(s, c),
    decreases s.len(),
{
    if s.len() > 0 {
        assert(ascii_lower(s).drop_last() =~= ascii_lower(s.drop_last()));
        lemma_lower_last_index(s.drop_last(), c);
    }
}

proof fn lemma_lower_file_name(p: Seq<char>)
    ensures
        spec_file_name(ascii_lower(p)) == lower_extension(spec_file_name(p)),
    decreases p.len(),
{
    let lp = ascii_lower(p);
    if p.len() > 0 {
        assert(lp.drop_last() =~= ascii_lower(p.drop_last()));
        if p.last() == '/' {
            lemma_lower_file_name(p.drop_last());
        } else {
            lemma_lower_last_index(p, '/');
            lemma_last_index_of(p, '/');
            let k = last_index_of(p, '/') + 1;
            let seg = p.subrange(k, p.len() as int);
            assert(lp.subrange(k, lp.len() as int) =~= ascii_lower(seg));
            assert(lp.subrange(0, k) =~= ascii_lower(p.subrange(0, k)));
            if seg == seq!['.'] {
                assert(ascii_lower(seg) =~= seq!['.']);
                lemma_lower_file_name(p.subrange(0, k));
            } else if seg == seq!['.', '.'] {
                assert(ascii_lower(seg) =~= seq!['.', '.']);
            } else {
                assert(ascii_lower(seg) != seq!['.']) by {
                    if ascii_lower(seg) == seq!['.'] {
                        assert(ascii_lower(seg)[0] == ascii_lower_char(seg[0]));
                        assert(seg =~= seq!['.']);
                    }
                }
                assert(ascii_lower(seg) != seq!['.', '.']) by {
                    if ascii_lower(seg) == seq!['.', '.'] {
                        assert(ascii_lower(seg)[0] == ascii_lower_char(seg[0]));
                        assert(ascii_lower(seg)[1] == ascii_lower_char(seg[1]));
                        assert(seg =~= seq!['.', '.']);
                    }
                }
            }
        }
    }
}

proof fn lemma_lower_path_extension(p: Seq<char>)
    ensures
        spec_path_extension(ascii_lower(p)) == lower_extension(spec_path_extension(p)),
{
    lemma_lower_file_name(p);
    match spec_file_name(p) {
        Some(name) => {
            lemma_lower_last_index(name, '.');
            let i = last_index_of(name, '.');
            if i > 0 {
                lemma_last_index_of(name, '.');
                assert(ascii_lower(name).subrange(i + 1, name.len() as int) =~= ascii_lower(
                    name.subrange(i + 1, name.len() as int),
                ));
            }
        },
        None => {},
    }
}

proof fn lemma_file_name_ascii(p: Seq<char>)
    requires
        vstd::utf8::is_ascii_chars(p),
    ensures
        spec_file_name(p) matches Some(n) ==> vstd::utf8::is_ascii_chars(n),
    decreases p.len(),
{
    if p.len() > 0 {
        if p.last() == '/' {
            lemma_file_name_ascii(p.drop_last());
        } else {
            lemma_last_index_of(p, '/');
            let k = last_index_of(p, '/') + 1;
            let seg = p.subrange(k, p.len() as int);
            if seg == seq!['.'] {
                lemma_file_name_ascii(p.subrange(0, k));
            } else if seg != seq!['.', '.'] {
                assert forall|i: int| 0 <= i < seg.len() implies '\0' <= #[trigger] seg[i] <= '\u{7f}' by {
                    assert(seg[i] == p[k + i]);
                }
            }
        }
    }
}

/// The extension of an ASCII path is ASCII.
proof fn lemma_path_extension_ascii(p: Seq<char>)
    requires
        vstd::utf8::is_ascii_chars(p),
    ensures
        spec_path_extension(p) matches Some(e) ==> vstd::utf8::is_ascii_chars(e),
{
    lemma_file_name_ascii(p);
    if let Some(name) = spec_file_name(p) {
        let i = last_index_of(name, '.');
        if i > 0 {
            lemma_last_index_of(name, '.');
            let e = name.subrange(i + 1, name.len() as int);
            assert forall|j: int| 0 <= j < e.len() implies '\0' <= #[trigger] e[j] <= '\u{7f}' by {
                assert(e[j] == name[i + 1 + j]);
            }
        }
    }
}

/// Content type of an ASCII file name: as `spec_file_mimetype`, with the
/// extension lowered by ASCII case mapping.
pub open spec fn spec_ascii_file_mimetype(filename: Seq<char>, default: ContentType) -> ContentType {
    match spec_path_extension(filename) {
        Some(ext) => spec_type_of_extension(ascii_lower(ext), default),
        None => default,
    }
}

/// For ASCII file names, the content type does not depend on letter case: two
/// names that agree once ASCII capitals are lowered get the same content type.
pub proof fn lemma_file_mimetype_ignores_case(p: Seq<char>, q: Seq<char>, default: ContentType)
    requires
        ascii_lower(p) == ascii_lower(q),
    ensures
        spec_ascii_file_mimetype(p, default) == spec_ascii_file_mimetype(q, default),
{
    lemma_lower_path_extension(p);
    lemma_lower_path_extension(q);
}

/// Whether a lowercase extension is one that the site knows.
pub open spec fn known_extension(ext: Seq<char>) -> bool {
    ext == "css"@ || ext == "gif"@ || ext == "html"@ || ext == "htm"@ || ext == "jpeg"@
        || ext == "jpg"@ || ext == "js"@ || ext == "json"@ || ext == "png"@ || ext == "svg"@
        || ext == "wasm"@
}

/// The default decides only for files without a known extension: a known
/// extension gives the same content type whatever the default, and any other
/// file gets the default.
pub proof fn lemma_file_mimetype_default(f: Seq<char>, d1: ContentType, d2: ContentType)
    ensures
        (spec_path_extension(f) matches Some(e) && known_extension(lowercase(e))) ==> spec_file_mimetype(
            f,
            d1,
        ) == spec_file_mimetype(f, d2),
        !(spec_path_extension(f) matches Some(e) && known_extension(lowercase(e)))
            ==> spec_file_mimetype(f, d1) == d1,
{
}

/// `s` without its leading slashes.
pub open spec fn spec_trim_leading_slashes(s: Seq<char>) -> Seq<char>
    decreases s.len(),
{
    if s.len() > 0 && s[0] == '/' {
        spec_trim_leading_slashes(s.drop_first())
    } else {
        s
    }
}

/// Removes every leading `/` from a request path.
pub fn trim_leading_slashes(s: &str) -> (r: &str)
    ensures
        r@ == spec_trim_leading_slashes(s@),
{
    let cs = text::chars_of(s);
    let n = cs.len();
    let mut start: usize = 0;
    assert(cs@.skip(0) =~= cs@);
    while start < n && cs[start] == '/'
        invariant
            cs@ == s@,
            n == cs@.len(),
            start <= n,
            spec_trim_leading_slashes(s@) == spec_trim_leading_slashes(cs@.skip(start as int)),
        decreases n - start,
    {
        assert(cs@.skip(start as int).drop_first() =~= cs@.skip(start + 1));
        start = start + 1;
    }
    assert(cs@.skip(start as int) =~= cs@.subrange(start as int, n as int));
    s.substring_char(start, n)
}

/// How the site answers a request.
pub enum PageRoute {
    /// 405, with `Allow: GET, HEAD`.
    MethodNotAllowed,
    /// The echo of the request headers as JSON.
    ReqInfos,
    /// The speed-test payload.
    SpeedTest,
    /// The embedded file of that name, or 404 when there is none.
    Asset(String),
}

/// Whether the site serves requests with this method.
pub open spec fn method_allowed(method: Seq<char>) -> bool {
    method == "GET"@ || method == "HEAD"@
}

/// The file a path names: the path without leading slashes, `index.html` for the root.
pub open spec fn spec_asset_name(path: Seq<char>) -> Seq<char> {
    if spec_trim_leading_slashes(path).len() == 0 {
        "index.html"@
    } else {
        spec_trim_leading_slashes(path)
    }
}

/// Decides how the site answers a request with this method and path.
pub fn route(method: &str, path: &str) -> (r: PageRoute)
    ensures
        (r is MethodNotAllowed) <==> !method_allowed(method@),
        (r is ReqInfos) <==> method_allowed(method@) && spec_trim_leading_slashes(path@)
            == "api/req_infos"@,
        (r is SpeedTest) <==> method_allowed(method@) && spec_trim_leading_slashes(path@)
            == "api/speedtest"@,
        r matches PageRoute::Asset(name) ==> name@ == spec_asset_name(path@),
{
    if !(text::same_text(method, "GET") || text::same_text(method, "HEAD")) {
        return PageRoute::MethodNotAllowed;
    }
    let filename = trim_leading_slashes(path);
    proof {
        reveal_strlit("api/req_infos");
        reveal_strlit("api/speedtest");
        assert("api/req_infos"@[4] != "api/speedtest"@[4]);
    }
    if text::same_text(filename, "api/req_infos") {
        PageRoute::ReqInfos
    } else if text::same_text(filename, "api/speedtest") {
        PageRoute::SpeedTest
    } else if filename.unicode_len() == 0 {
        PageRoute::Asset(text::owned("index.html"))
    } else {
        PageRoute::Asset(text::owned(filename))
    }
}

/// Body of the 405 answer.
pub fn method_not_allowed_body() -> (b: String)
    ensures
        b@ == "This method is not allowed\n"@,
{
    text::owned("This method is not allowed\n")
}

/// Value of the `Allow` header of the 405 answer.
pub fn allowed_methods() -> (a: String)
    ensures
        a@ == "GET, HEAD"@,
{
    text::owned("GET, HEAD")
}

/// Body of the 404 answer for the request path `path`.
pub fn not_found_body(path: &str) -> (b: String)
    ensures
        b@ == "404 error, "@ + path@ + " not found!"@,
{
    let mut b = text::owned("404 error, ");
    b.append(path);
    b.append(" not found!");
    b
}

/// Size in bytes of the speed-test payload (500 KiB).
pub const SPEED_TEST_PAYLOAD_LEN: usize = 512000;

/// The speed-test payload: 500 KiB of `b`.
pub fn speed_test_payload() -> (p: String)
    ensures
        p@.len() == SPEED_TEST_PAYLOAD_LEN,
        forall|i: int| 0 <= i < p@.len() ==> p@[i] == 'b',
{
    let mut p = String::new();
    for i in 0..SPEED_TEST_PAYLOAD_LEN
        invariant
            p@.len() == i,
            forall|j: int| 0 <= j < p@.len() ==> p@[j] == 'b',
    {
        p.push('b');
    }
    p
}

} // verus!
