//! The table of fixtures and the media type that a file name calls for.

use vstd::prelude::*;
use vstd::string::*;
use crate::http::{
    respond, HandlerError, Mime, Response, ResponseView, STATUS_NOT_FOUND, STATUS_OK,
};
use crate::text::{
    chars_of, eq_ignore_case, lower, split, split_spec, str_eq, strings_view, substring,
};

verus! {

/// The fixtures by logical name: a table that is filled once and then only
/// read.
#[derive(Clone, Debug)]
pub struct Asset {
    files: Vec<(String, Vec<u8>)>,
}

/// The table that a list of files gives: of two files with one name, the
/// later one.
pub open spec fn files_table(files: Seq<(String, Vec<u8>)>) -> Map<Seq<char>, Seq<u8>>
    decreases files.len(),
{
    if files.len() == 0 {
        Map::empty()
    } else {
        files_table(files.drop_last()).insert(files.last().0@, files.last().1@)
    }
}

impl View for Asset {
    type V = Map<Seq<char>, Seq<u8>>;

    closed spec fn view(&self) -> Map<Seq<char>, Seq<u8>> {
        files_table(self.files@)
    }
}

impl Asset {
    /// The empty table.
    pub fn new() -> (r: Asset)
        ensures
            r@ == files_table(Seq::empty()),
    {
        Asset { files: Vec::new() }
    }

    /// The same table with `data` under `name`.
    pub fn with_file(self, name: &str, data: Vec<u8>) -> (r: Asset)
        ensures
            r@ == self@.insert(name@, data@),
    {
        let mut files = self.files;
        let ghost before = files@;
        files.push((String::from_str(name), data));
        assert(files@.drop_last() =~= before);
        Asset { files }
    }

    /// The fixture named `path`, if the table holds one.
    pub fn get(&self, path: &str) -> (r: Option<&Vec<u8>>)
        ensures
            match r {
                Some(data) => self@.contains_key(path@) && self@[path@] == data@,
                None => !self@.contains_key(path@),
            },
    {
        let mut i: usize = self.files.len();
        assert(self.files@.take(i as int) =~= self.files@);
        while i > 0
            invariant
                i <= self.files@.len(),
                files_table(self.files@).contains_key(path@) == files_table(
                    self.files@.take(i as int),
                ).contains_key(path@),
                files_table(self.files@).contains_key(path@) ==> files_table(self.files@)[path@]
                    == files_table(self.files@.take(i as int))[path@],
            decreases i,
        {
            proof {
                let now = self.files@.take(i as int);
                assert(now.drop_last() =~= self.files@.take(i - 1));
                assert(now.last() == self.files@[i - 1]);
            }
            i -= 1;
            if str_eq(self.files[i].0.as_str(), path) {
                return Some(&self.files[i].1);
            }
        }
        None
    }
}

/// The last component of a path cut at `/`: the last piece that is neither
/// empty nor `.`.
pub open spec fn last_component(pieces: Seq<Seq<char>>) -> Option<Seq<char>>
    decreases pieces.len(),
{
    if pieces.len() == 0 {
        None
    } else if pieces.last().len() == 0 || pieces.last() == seq!['.'] {
        last_component(pieces.drop_last())
    } else {
        Some(pieces.last())
    }
}

/// The file name of a path: its last component, unless that is `..`.
pub open spec fn file_name(path: Seq<char>) -> Option<Seq<char>> {
    match last_component(split_spec(path, '/')) {
        Some(name) => if name == seq!['.', '.'] {
            None
        } else {
            Some(name)
        },
        None => None,
    }
}

/// The index of the last occurrence of `c` in `s`, or -1 where there is
/// none.
pub open spec fn last_position(s: Seq<char>, c: char) -> int
    decreases s.len(),
{
    if s.len() == 0 {
        -1
    } else if s.last() == c {
        s.len() - 1
    } else {
        last_position(s.drop_last(), c)
    }
}

/// The extension of a file name: what follows its last dot, where it has a
/// dot that is not its first character.
pub open spec fn name_extension(name: Seq<char>) -> Option<Seq<char>> {
    let dot = last_position(name, '.');
    if dot > 0 {
        Some(name.skip(dot + 1))
    } else {
        None
    }
}

/// The extension of the file that a path names.
pub open spec fn extension(path: Seq<char>) -> Option<Seq<char>> {
    match file_name(path) {
        Some(name) => name_extension(name),
        None => None,
    }
}

/// The media type of an extension, whatever the case of its letters:
/// `default` for one that the table does not hold.
pub open spec fn extension_mime(ext: Seq<char>, default: Mime) -> Mime {
    let e = lower(ext);
    if e == lower("css"@) {
        Mime::TextCssUtf8
    } else if e == lower("gif"@) {
        Mime::ImageGif
    } else if e == lower("html"@) || e == lower("htm"@) {
        Mime::TextHtmlUtf8
    } else if e == lower("jpeg"@) || e == lower("jpg"@) {
        Mime::ImageJpeg
    } else if e == lower("png"@) {
        Mime::ImagePng
    } else if e == lower("js"@) {
        Mime::TextJavascript
    } else if e == lower("json"@) {
        Mime::ApplicationJson
    } else if e == lower("svg"@) {
        Mime::ImageSvg
    } else if e == lower("txt"@) {
        Mime::TextPlain
    } else if e == lower("webp"@) {
        Mime::ImageWebp
    } else if e == lower("xml"@) {
        Mime::ApplicationXml
    } else {
        default
    }
}

/// The media type that a file name calls for: that of its extension, and
/// `default` where it has none.
pub open spec fn file_mimetype_spec(filename: Seq<char>, default: Mime) -> Mime {
    match extension(filename) {
        Some(ext) => extension_mime(ext, default),
        None => default,
    }
}

/// `last_position` is the greatest index that holds `c`, and -1 if none
/// does.
pub proof fn lemma_last_position_is(s: Seq<char>, c: char, k: int)
    requires
        -1 <= k < s.len(),
        forall|i: int| k < i < s.len() ==> s[i] != c,
        k >= 0 ==> s[k] == c,
    ensures
        last_position(s, c) == k,
    decreases s.len(),
{
    if s.len() > 0 && k < s.len() - 1 {
        let t = s.drop_last();
        assert forall|i: int| k < i < t.len() implies t[i] != c by {
            assert(t[i] == s[i]);
        }
        if k >= 0 {
            assert(t[k] == s[k]);
        }
        lemma_last_position_is(t, c, k);
    }
}

/// The extension of a file name.
pub fn extension_of_name(name: &str) -> (r: Option<String>)
    ensures
        crate::text::option_view(r) == name_extension(name@),
{
    let chars = chars_of(name);
    let n: usize = chars.len();
    let mut i: usize = n;
    while i > 0
        invariant
            chars@ == name@,
            n == name@.len(),
            i <= n,
            forall|k: int| i <= k < n ==> name@[k] != '.',
        decreases i,
    {
        i -= 1;
        if chars[i] == '.' {
            proof {
                lemma_last_position_is(name@, '.', i as int);
            }
            if i == 0 {
                return None;
            }
            return Some(substring(name, i + 1, n));
        }
    }
    proof {
        lemma_last_position_is(name@, '.', -1);
    }
    None
}

/// The file name of a path.
pub fn file_name_of(path: &str) -> (r: Option<String>)
    ensures
        crate::text::option_view(r) == file_name(path@),
{
    let pieces = split(path, '/');
    let ghost all = strings_view(pieces@);
    let mut i: usize = pieces.len();
    assert(all.take(i as int) =~= all);
    while i > 0
        invariant
            i <= pieces@.len(),
            all == strings_view(pieces@),
            all == split_spec(path@, '/'),
            last_component(all) == last_component(all.take(i as int)),
        decreases i,
    {
        proof {
            let now = all.take(i as int);
            assert(now.drop_last() =~= all.take(i - 1));
            assert(now.last() == all[i - 1]);
        }
        i -= 1;
        let piece = pieces[i].as_str();
        proof {
            reveal_strlit("");
            reveal_strlit(".");
            reveal_strlit("..");
            assert(""@ =~= Seq::<char>::empty());
            assert("."@ =~= seq!['.']);
            assert(".."@ =~= seq!['.', '.']);
            assert(piece@ == all[i as int]);
            if piece@.len() == 0 {
                assert(piece@ =~= ""@);
            }
        }
        if !(str_eq(piece, "") || str_eq(piece, ".")) {
            if str_eq(piece, "..") {
                return None;
            }
            return Some(pieces[i].clone());
        }
    }
    None
}

/// The media type of an extension.
pub fn mime_of_extension(ext: &str, default: Mime) -> (r: Mime)
    ensures
        r == extension_mime(ext@, default),
{
    if eq_ignore_case(ext, "css") {
        Mime::TextCssUtf8
    } else if eq_ignore_case(ext, "gif") {
        Mime::ImageGif
    } else if eq_ignore_case(ext, "html") || eq_ignore_case(ext, "htm") {
        Mime::TextHtmlUtf8
    } else if eq_ignore_case(ext, "jpeg") || eq_ignore_case(ext, "jpg") {
        Mime::ImageJpeg
    } else if eq_ignore_case(ext, "png") {
        Mime::ImagePng
    } else if eq_ignore_case(ext, "js") {
        Mime::TextJavascript
    } else if eq_ignore_case(ext, "json") {
        Mime::ApplicationJson
    } else if eq_ignore_case(ext, "svg") {
        Mime::ImageSvg
    } else if eq_ignore_case(ext, "txt") {
        Mime::TextPlain
    } else if eq_ignore_case(ext, "webp") {
        Mime::ImageWebp
    } else if eq_ignore_case(ext, "xml") {
        Mime::ApplicationXml
    } else {
        default
    }
}

/// The media type that a file name calls for: that of its extension,
/// whatever the case of its letters, and `default` where the name has no
/// extension or one that the table does not hold.
pub fn file_mimetype(filename: &str, default: Mime) -> (r: Mime)
    ensures
        r == file_mimetype_spec(filename@, default),
{
    match file_name_of(filename) {
        Some(name) => match extension_of_name(name.as_str()) {
            Some(ext) => mime_of_extension(ext.as_str(), default),
            None => default,
        },
        None => default,
    }
}

/// The response for a fixture that the table lacks.
pub open spec fn not_found_fixture() -> ResponseView {
    respond(STATUS_NOT_FOUND).content_type(Mime::TextHtmlUtf8).body_text("E_NOTFOUND"@)
}

/// The response that serves the fixture `path`: its bytes under the media
/// type of its name, or 404 with the body `E_NOTFOUND`.
pub open spec fn serve_spec(assets: Map<Seq<char>, Seq<u8>>, path: Seq<char>, mt: Mime) -> ResponseView {
    if assets.contains_key(path) {
        respond(STATUS_OK).body_octet_stream(assets[path]).content_type(
            file_mimetype_spec(path, mt),
        )
    } else {
        not_found_fixture()
    }
}

/// Serves the fixture `path` from the table, under the media type that its
/// name calls for and `mt` where the name decides nothing.
pub fn serve(assets: &Asset, path: &str, mt: Mime) -> (r: Result<Response, HandlerError>)
    ensures
        r matches Ok(resp) && resp@ == serve_spec(assets@, path@, mt),
{
    match assets.get(path) {
        Some(data) => Ok(
            Response::from_status(STATUS_OK).with_body_octet_stream(data.clone()).with_content_type(
                file_mimetype(path, mt),
            ),
        ),
        None => Ok(
            Response::from_status(STATUS_NOT_FOUND).with_content_type(
                Mime::TextHtmlUtf8,
            ).with_body_str("E_NOTFOUND"),
        ),
    }
}

} // verus!
