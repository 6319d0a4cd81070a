//! Clipboard history: the entry model, the classification that picks an
//! icon and a preview plan for an entry, relative timestamp labels, and
//! the linear list controller for the clipboard-history mode. Reading
//! files, decoding images and drawing belong to the rendering shell.

use vstd::prelude::*;
use vstd::string::*;

use crate::color::{parse_color_spec, Color};
use crate::filter::{lower_of, lowercase, rank_uniform, ranked_ok, zero_prs};
use crate::list::{indices_ok, wrap_step, wrapped_position};
use crate::strutil::{
    dec_digits, has_prefix, rfind_char, str_eq, str_starts_with, trim_spaces,
    trim_spec, u64_to_string,
};

verus! {

/// What a clipboard entry holds.
pub enum ClipboardContent {
    /// Plain text.
    Text(String),
    /// Raw encoded image bytes.
    Image(Vec<u8>),
    /// One or more file paths, carried as plain path strings.
    FilePaths(Vec<String>),
    /// Rich text, of which only the plain form is used here.
    RichText {
        /// The plain-text form of the rich content.
        plain: String,
    },
}

/// Two contents carry the same data: equal text, equal bytes, or the
/// same paths. (A cloned byte or path vector is indistinguishable from
/// its original without being the same abstract vector, so clones are
/// specified through this rather than plain equality.)
pub open spec fn content_like(a: ClipboardContent, b: ClipboardContent) -> bool {
    match (a, b) {
        (ClipboardContent::Text(x), ClipboardContent::Text(y)) => x == y,
        (ClipboardContent::Image(x), ClipboardContent::Image(y)) => x@ == y@,
        (ClipboardContent::FilePaths(x), ClipboardContent::FilePaths(y)) => x@ == y@,
        (
            ClipboardContent::RichText { plain: x },
            ClipboardContent::RichText { plain: y },
        ) => x == y,
        _ => false,
    }
}

impl Clone for ClipboardContent {
    fn clone(&self) -> (r: Self)
        ensures
            content_like(*self, r),
    {
        match self {
            ClipboardContent::Text(t) => ClipboardContent::Text(t.clone()),
            ClipboardContent::Image(b) => ClipboardContent::Image(clone_bytes(b)),
            ClipboardContent::FilePaths(ps) => ClipboardContent::FilePaths(clone_strings(ps)),
            ClipboardContent::RichText { plain } => ClipboardContent::RichText {
                plain: plain.clone(),
            },
        }
    }
}

/// One entry of the clipboard history.
pub struct ClipboardItem {
    /// The captured content.
    pub content: ClipboardContent,
    /// Capture time, in seconds since the epoch; the host converts its
    /// clock values to and from this.
    pub timestamp_secs: u64,
}

/// Two entries carry the same data.
pub open spec fn item_like(a: ClipboardItem, b: ClipboardItem) -> bool {
    content_like(a.content, b.content) && a.timestamp_secs == b.timestamp_secs
}

impl Clone for ClipboardItem {
    fn clone(&self) -> (r: Self)
        ensures
            item_like(*self, r),
    {
        ClipboardItem { content: self.content.clone(), timestamp_secs: self.timestamp_secs }
    }
}

/// Clone a byte vector, element for element.
fn clone_bytes(b: &Vec<u8>) -> (r: Vec<u8>)
    ensures
        r@ == b@,
{
    let r = b.clone();
    proof {
        assert(r@ =~= b@) by {
            assert forall|k: int| 0 <= k < b@.len() implies r@[k] == b@[k] by {
                assert(vstd::pervasive::cloned::<u8>(b@[k], r@[k]));
            }
        }
    }
    r
}

/// Clone a vector of strings, element for element.
fn clone_strings(ps: &Vec<String>) -> (r: Vec<String>)
    ensures
        r@ == ps@,
{
    let r = ps.clone();
    proof {
        assert(r@ =~= ps@) by {
            assert forall|k: int| 0 <= k < ps@.len() implies r@[k] == ps@[k] by {
                assert(vstd::pervasive::cloned::<String>(ps@[k], r@[k]));
            }
        }
    }
    r
}

/// The lines of `ps` joined with a newline between consecutive entries.
pub open spec fn join_lines(ps: Seq<Seq<char>>) -> Seq<char>
    decreases ps.len(),
{
    if ps.len() == 0 {
        Seq::empty()
    } else if ps.len() == 1 {
        ps[0]
    } else {
        ps[0].push('\n') + join_lines(ps.drop_first())
    }
}

/// Appending one more line extends the joined text by a newline and the
/// line.
proof fn lemma_join_lines_snoc(ps: Seq<Seq<char>>, x: Seq<char>)
    ensures
        ps.len() == 0 ==> join_lines(ps.push(x)) == x,
        ps.len() > 0 ==> join_lines(ps.push(x)) =~= join_lines(ps) + seq!['\n'] + x,
    decreases ps.len(),
{
    if ps.len() == 0 {
        assert(ps.push(x)[0] == x);
    } else if ps.len() == 1 {
        assert(ps.push(x)[0] == ps[0]);
        assert(ps.push(x).drop_first() =~= seq![x]);
        assert(join_lines(seq![x]) == seq![x][0]);
        assert(join_lines(ps.push(x)) == ps[0].push('\n') + x);
        assert(ps[0].push('\n') + x =~= ps[0] + seq!['\n'] + x);
    } else {
        lemma_join_lines_snoc(ps.drop_first(), x);
        assert(ps.push(x).drop_first() =~= ps.drop_first().push(x));
        assert(ps.push(x)[0] == ps[0]);
        assert(join_lines(ps.push(x)) == ps[0].push('\n') + join_lines(ps.drop_first().push(x)));
        assert(join_lines(ps.drop_first().push(x)) =~= join_lines(ps.drop_first()) + seq!['\n']
            + x);
        assert(ps[0].push('\n') + (join_lines(ps.drop_first()) + seq!['\n'] + x) =~= (ps[0].push(
            '\n',
        ) + join_lines(ps.drop_first())) + seq!['\n'] + x);
        assert(join_lines(ps) == ps[0].push('\n') + join_lines(ps.drop_first()));
    }
}

/// Join a list of strings with newlines.
pub fn join_lines_exec(ps: &Vec<String>) -> (r: String)
    ensures
        r@ == join_lines(ps.deep_view()),
{
    let mut r = String::new();
    let n = ps.len();
    let mut i: usize = 0;
    while i < n
        invariant
            n == ps@.len(),
            i <= n,
            r@ == join_lines(ps.deep_view().take(i as int)),
        decreases n - i,
    {
        if i > 0 {
            r.append("\n");
        }
        r.append(ps[i].as_str());
        proof {
            let views = ps.deep_view();
            reveal_strlit("\n");
            assert("\n"@ =~= seq!['\n']);
            lemma_join_lines_snoc(views.take(i as int), views[i as int]);
            assert(views.take(i as int).push(views[i as int]) =~= views.take(i as int + 1));
            assert(views[i as int] == ps@[i as int]@);
            if i > 0 {
                assert(views.take(i as int).len() == i);
                assert(r@ =~= join_lines(views.take(i as int)) + seq!['\n'] + views[i as int]);
            } else {
                assert(r@ =~= views[0]);
            }
            assert(r@ =~= join_lines(views.take(i as int + 1)));
        }
        i = i + 1;
    }
    proof {
        assert(ps.deep_view().take(n as int) =~= ps.deep_view());
    }
    r
}

impl ClipboardItem {
    /// The single-line preview text shown for this entry in the list:
    /// the text itself, the plain form of rich text, the joined path
    /// list, or a fixed marker for image data.
    pub open spec fn spec_preview(&self) -> Seq<char> {
        match self.content {
            ClipboardContent::Text(t) => t@,
            ClipboardContent::RichText { plain } => plain@,
            ClipboardContent::FilePaths(ps) => join_lines(ps.deep_view()),
            ClipboardContent::Image(_) => "Image"@,
        }
    }

    /// The preview text of this entry.
    pub fn preview(&self) -> (r: String)
        ensures
            r@ == self.spec_preview(),
    {
        match &self.content {
            ClipboardContent::Text(t) => t.clone(),
            ClipboardContent::RichText { plain } => plain.clone(),
            ClipboardContent::FilePaths(ps) => join_lines_exec(ps),
            ClipboardContent::Image(_) => {
                proof {
                    reveal_strlit("Image");
                }
                String::from_str("Image")
            },
        }
    }
}

/// What `urlencoding::decode` returns, named: the percent-decoded form
/// of a character sequence, or nothing when the decoded bytes are not
/// valid text. The result depends on the input characters alone.
pub uninterp spec fn url_decoded(s: Seq<char>) -> Option<Seq<char>>;

/// Relies on urlencoding::decode: percent-decodes the string and fails
/// exactly when the decoded bytes are not UTF-8; a pure function of the
/// input characters.
#[verifier::external_body]
fn url_decode(s: &str) -> (r: Option<String>)
    ensures
        r is Some <==> url_decoded(s@) is Some,
        r matches Some(t) ==> Some(t@) == url_decoded(s@),
{
    match urlencoding::decode(s) {
        Ok(t) => Some(t.into_owned()),
        Err(_) => None,
    }
}

/// The path named by a `file://` URL: the trimmed text after the
/// scheme, percent-decoded when the decoding succeeds and taken as is
/// otherwise; nothing when the text is no `file://` URL.
pub open spec fn file_url_path(raw: Seq<char>) -> Option<Seq<char>> {
    let t = trim_spec(raw);
    if has_prefix(t, "file://"@) {
        let rest = t.skip("file://"@.len() as int);
        match url_decoded(rest) {
            Some(d) => Some(d),
            None => Some(rest),
        }
    } else {
        None
    }
}

/// Parse a `file://` URL and return the path.
pub fn parse_file_url(text: &str) -> (r: Option<String>)
    ensures
        r is Some <==> file_url_path(text@) is Some,
        r matches Some(p) ==> Some(p@) == file_url_path(text@),
{
    let t = trim_spaces(text);
    proof {
        reveal_strlit("file://");
    }
    if !str_starts_with(t, "file://") {
        return None;
    }
    let n = t.unicode_len();
    let rest = t.substring_char(7, n);
    proof {
        assert(rest@ =~= trim_spec(text@).skip(7));
    }
    match url_decode(rest) {
        Some(d) => Some(d),
        None => Some(String::from_str(rest)),
    }
}

/// The extension of a path string: the characters after the last dot of
/// the last path component, provided the dot is neither the component's
/// first character (a hidden file) nor absent.
pub open spec fn path_extension(p: Seq<char>) -> Option<Seq<char>> {
    let name_start = match rfind_char(p, '/') {
        Some(sl) => sl + 1,
        None => 0,
    };
    let name = p.skip(name_start);
    match rfind_char(name, '.') {
        Some(d) => if d == 0 {
            None
        } else {
            Some(name.skip(d + 1))
        },
        None => None,
    }
}

/// Extract the extension of a path string.
fn extension_of(p: &str) -> (r: Option<String>)
    ensures
        r is Some <==> path_extension(p@) is Some,
        r matches Some(e) ==> Some(e@) == path_extension(p@),
{
    let n = p.unicode_len();
    proof {
        crate::strutil::lemma_rfind_char_some(p@, '/');
    }
    let name_start = match crate::strutil::rfind_char_exec(p, '/') {
        Some(sl) => sl + 1,
        None => 0,
    };
    let name = p.substring_char(name_start, n);
    proof {
        assert(name@ =~= p@.skip(name_start as int));
        crate::strutil::lemma_rfind_char_some(name@, '.');
    }
    let nl = name.unicode_len();
    match crate::strutil::rfind_char_exec(name, '.') {
        Some(d) => {
            if d == 0 {
                None
            } else {
                let e = name.substring_char(d + 1, nl);
                proof {
                    assert(e@ =~= name@.skip(d as int + 1));
                }
                Some(String::from_str(e))
            }
        },
        None => None,
    }
}

/// The lowercased extension names an image format.
pub open spec fn is_image_ext(e: Seq<char>) -> bool {
    ||| e == "png"@
    ||| e == "jpg"@
    ||| e == "jpeg"@
    ||| e == "gif"@
    ||| e == "webp"@
    ||| e == "svg"@
}

/// The lowercased extension names a plain-text format.
pub open spec fn is_text_ext(e: Seq<char>) -> bool {
    ||| e == "txt"@
    ||| e == "md"@
    ||| e == "rs"@
    ||| e == "py"@
    ||| e == "js"@
    ||| e == "ts"@
    ||| e == "json"@
    ||| e == "yaml"@
    ||| e == "yml"@
    ||| e == "toml"@
    ||| e == "html"@
    ||| e == "css"@
    ||| e == "sh"@
}

/// Is the lowercased form of `e` an image extension?
fn image_ext(e: &str) -> (r: bool)
    ensures
        r == is_image_ext(lower_of(e@)),
{
    let el = lowercase(e);
    proof {
        reveal_strlit("png");
        reveal_strlit("jpg");
        reveal_strlit("jpeg");
        reveal_strlit("gif");
        reveal_strlit("webp");
        reveal_strlit("svg");
    }
    let l = el.as_str();
    str_eq(l, "png") || str_eq(l, "jpg") || str_eq(l, "jpeg") || str_eq(l, "gif") || str_eq(
        l,
        "webp",
    ) || str_eq(l, "svg")
}

/// Is the lowercased form of `e` a text extension?
fn text_ext(e: &str) -> (r: bool)
    ensures
        r == is_text_ext(lower_of(e@)),
{
    let el = lowercase(e);
    proof {
        reveal_strlit("txt");
        reveal_strlit("md");
        reveal_strlit("rs");
        reveal_strlit("py");
        reveal_strlit("js");
        reveal_strlit("ts");
        reveal_strlit("json");
        reveal_strlit("yaml");
        reveal_strlit("yml");
        reveal_strlit("toml");
        reveal_strlit("html");
        reveal_strlit("css");
        reveal_strlit("sh");
    }
    let l = el.as_str();
    str_eq(l, "txt") || str_eq(l, "md") || str_eq(l, "rs") || str_eq(l, "py") || str_eq(l, "js")
        || str_eq(l, "ts") || str_eq(l, "json") || str_eq(l, "yaml") || str_eq(l, "yml")
        || str_eq(l, "toml") || str_eq(l, "html") || str_eq(l, "css") || str_eq(l, "sh")
}

/// The icon shown for a clipboard entry in the history list.
#[derive(Clone, Copy, PartialEq, Eq, Structural, Debug)]
pub enum ClipboardIcon {
    /// A color swatch for recognized color strings.
    ColorSwatch(Color),
    /// An image-file icon.
    FileImage,
    /// A text-file icon.
    FileText,
    /// A generic file icon.
    FileGeneric,
    /// The plain clipboard-text icon.
    ClipboardText,
    /// The icon for raw image data.
    ImageData,
}

/// The icon for a file path, by its extension class.
pub open spec fn ext_icon(p: Seq<char>) -> ClipboardIcon {
    match path_extension(p) {
        Some(e) => if is_image_ext(lower_of(e)) {
            ClipboardIcon::FileImage
        } else if is_text_ext(lower_of(e)) {
            ClipboardIcon::FileText
        } else {
            ClipboardIcon::FileGeneric
        },
        None => ClipboardIcon::FileGeneric,
    }
}

/// The icon for a clipboard entry: a color swatch for a color string, a
/// file icon by extension for a `file://` URL or a single path, the
/// image icon for image data, and the clipboard-text icon otherwise.
pub open spec fn icon_spec(item: ClipboardItem) -> ClipboardIcon {
    match item.content {
        ClipboardContent::Text(t) => match parse_color_spec(t@) {
            Some(c) => ClipboardIcon::ColorSwatch(c),
            None => match file_url_path(t@) {
                Some(p) => ext_icon(p),
                None => ClipboardIcon::ClipboardText,
            },
        },
        ClipboardContent::Image(_) => ClipboardIcon::ImageData,
        ClipboardContent::FilePaths(ps) => if ps@.len() == 1 {
            ext_icon(ps@[0]@)
        } else {
            ClipboardIcon::FileGeneric
        },
        ClipboardContent::RichText { .. } => ClipboardIcon::ClipboardText,
    }
}

/// Classify a file path into its icon by extension.
fn ext_icon_exec(p: &str) -> (r: ClipboardIcon)
    ensures
        r == ext_icon(p@),
{
    match extension_of(p) {
        Some(e) => {
            if image_ext(e.as_str()) {
                ClipboardIcon::FileImage
            } else if text_ext(e.as_str()) {
                ClipboardIcon::FileText
            } else {
                ClipboardIcon::FileGeneric
            }
        },
        None => ClipboardIcon::FileGeneric,
    }
}

/// Pick the icon for a clipboard entry.
pub fn icon_for_item(item: &ClipboardItem) -> (r: ClipboardIcon)
    ensures
        r == icon_spec(*item),
{
    match &item.content {
        ClipboardContent::Text(t) => {
            match crate::color::parse_color(t.as_str()) {
                Some(c) => ClipboardIcon::ColorSwatch(c),
                None => {
                    match parse_file_url(t.as_str()) {
                        Some(p) => ext_icon_exec(p.as_str()),
                        None => ClipboardIcon::ClipboardText,
                    }
                },
            }
        },
        ClipboardContent::Image(_) => ClipboardIcon::ImageData,
        ClipboardContent::FilePaths(ps) => {
            if ps.len() == 1 {
                ext_icon_exec(ps[0].as_str())
            } else {
                ClipboardIcon::FileGeneric
            }
        },
        ClipboardContent::RichText { .. } => ClipboardIcon::ClipboardText,
    }
}

/// How the preview panel should present a clipboard entry. Whoever
/// renders it performs the file reads and image decoding; a plan that
/// names a file carries the text to fall back to when reading fails.
#[derive(Debug)]
pub enum PreviewPlan {
    /// Show the color swatch and its codes.
    ColorCodes(Color),
    /// Render the named image file.
    ImageFile(String),
    /// Show the contents of the named text file; on a failed read show
    /// the fallback text instead.
    TextFile {
        /// The file to read.
        path: String,
        /// What to show when the file cannot be read.
        fallback: String,
    },
    /// Show this text as is.
    PlainText(String),
    /// Decode and show the entry's stored image bytes.
    ImageBytes,
    /// Show this joined list of file paths.
    FileList(String),
}

/// The preview plan for a clipboard entry: colors get a swatch, file
/// URLs and single paths are presented by extension class, image data
/// is decoded, several paths are listed, and anything else is shown as
/// text.
pub open spec fn preview_plan_matches(item: ClipboardItem, r: PreviewPlan) -> bool {
    match item.content {
        ClipboardContent::Text(t) => match parse_color_spec(t@) {
            Some(c) => r == PreviewPlan::ColorCodes(c),
            None => match file_url_path(t@) {
                Some(p) => plan_matches_path(p, t@, r),
                None => plan_is_plain(r, t@),
            },
        },
        ClipboardContent::Image(_) => r is ImageBytes,
        ClipboardContent::FilePaths(ps) => if ps@.len() == 1 {
            plan_matches_path(ps@[0]@, ps@[0]@, r)
        } else {
            r matches PreviewPlan::FileList(l) && l@ == join_lines(ps.deep_view())
        },
        ClipboardContent::RichText { plain } => plan_is_plain(r, plain@),
    }
}

/// The plan shows exactly this text.
pub open spec fn plan_is_plain(r: PreviewPlan, t: Seq<char>) -> bool {
    r matches PreviewPlan::PlainText(s) && s@ == t
}

/// The plan presents the file at `p` by extension class, falling back
/// to `fallback`.
pub open spec fn plan_matches_path(p: Seq<char>, fallback: Seq<char>, r: PreviewPlan) -> bool {
    match path_extension(p) {
        Some(e) => if is_image_ext(lower_of(e)) {
            r matches PreviewPlan::ImageFile(q) && q@ == p
        } else if is_text_ext(lower_of(e)) {
            r matches PreviewPlan::TextFile { path, fallback: fb } && path@ == p && fb@
                == fallback
        } else {
            plan_is_plain(r, fallback)
        },
        None => plan_is_plain(r, fallback),
    }
}

/// Plan the preview of a file path by its extension class.
fn path_preview_exec(p: String, fallback: String) -> (r: PreviewPlan)
    ensures
        plan_matches_path(p@, fallback@, r),
{
    match extension_of(p.as_str()) {
        Some(e) => {
            if image_ext(e.as_str()) {
                PreviewPlan::ImageFile(p)
            } else if text_ext(e.as_str()) {
                PreviewPlan::TextFile { path: p, fallback }
            } else {
                PreviewPlan::PlainText(fallback)
            }
        },
        None => PreviewPlan::PlainText(fallback),
    }
}

/// Plan the preview of a clipboard entry.
pub fn preview_plan(item: &ClipboardItem) -> (r: PreviewPlan)
    ensures
        preview_plan_matches(*item, r),
{
    match &item.content {
        ClipboardContent::Text(t) => {
            match crate::color::parse_color(t.as_str()) {
                Some(c) => PreviewPlan::ColorCodes(c),
                None => {
                    match parse_file_url(t.as_str()) {
                        Some(p) => path_preview_exec(p, t.clone()),
                        None => PreviewPlan::PlainText(t.clone()),
                    }
                },
            }
        },
        ClipboardContent::Image(_) => PreviewPlan::ImageBytes,
        ClipboardContent::FilePaths(ps) => {
            if ps.len() == 1 {
                path_preview_exec(ps[0].clone(), ps[0].clone())
            } else {
                PreviewPlan::FileList(join_lines_exec(ps))
            }
        },
        ClipboardContent::RichText { plain } => PreviewPlan::PlainText(plain.clone()),
    }
}

/// The relative-time label for an entry captured `secs` seconds ago:
/// "Just now" under a minute, minutes under an hour, hours under a day,
/// and "Earlier" beyond that.
pub open spec fn timestamp_label_spec(secs: nat) -> Seq<char> {
    if secs < 60 {
        "Just now"@
    } else if secs < 3600 {
        let m = secs / 60;
        dec_digits(m) + (if m > 1 {
            " mins ago"@
        } else {
            " min ago"@
        })
    } else if secs < 86400 {
        let h = secs / 3600;
        dec_digits(h) + (if h > 1 {
            " hours ago"@
        } else {
            " hour ago"@
        })
    } else {
        "Earlier"@
    }
}

/// Format the age of an entry as a relative timestamp label.
pub fn format_timestamp(secs_ago: u64) -> (r: String)
    ensures
        r@ == timestamp_label_spec(secs_ago as nat),
{
    if secs_ago < 60 {
        proof {
            reveal_strlit("Just now");
        }
        String::from_str("Just now")
    } else if secs_ago < 3600 {
        let m = secs_ago / 60;
        let mut s = u64_to_string(m);
        if m > 1 {
            proof {
                reveal_strlit(" mins ago");
            }
            s.append(" mins ago");
        } else {
            proof {
                reveal_strlit(" min ago");
            }
            s.append(" min ago");
        }
        s
    } else if secs_ago < 86400 {
        let h = secs_ago / 3600;
        let mut s = u64_to_string(h);
        if h > 1 {
            proof {
                reveal_strlit(" hours ago");
            }
            s.append(" hours ago");
        } else {
            proof {
                reveal_strlit(" hour ago");
            }
            s.append(" hour ago");
        }
        s
    } else {
        proof {
            reveal_strlit("Earlier");
        }
        String::from_str("Earlier")
    }
}

/// The previews of a sequence of clipboard entries, in order: the text
/// the filter matches the query against.
pub open spec fn item_previews(items: Seq<ClipboardItem>) -> Seq<Seq<char>> {
    items.map_values(|it: ClipboardItem| it.spec_preview())
}

/// The linear list controller for the clipboard-history mode: entries,
/// query, filtered view and cursor. Filtering is synchronous here — the
/// history is small and local.
pub struct ClipboardListDelegate {
    /// The backing entries, supplied at mode entry, newest first.
    pub items: Vec<ClipboardItem>,
    /// The current query string.
    pub query: String,
    /// The filtered view: indices into `items`, in display order.
    pub filtered: Vec<usize>,
    /// The selection cursor: a position in the filtered view, or `None`
    /// exactly when the view is empty.
    pub selected: Option<usize>,
}

impl ClipboardListDelegate {
    /// Well-formedness: filtered indices point into the entries and the
    /// cursor is a valid position exactly when the view is non-empty.
    pub open spec fn wf(&self) -> bool {
        &&& indices_ok(self.filtered@, self.items@.len() as int)
        &&& match self.selected {
            Some(s) => s < self.filtered@.len(),
            None => self.filtered@.len() == 0,
        }
    }

    /// The entry under the cursor, if any.
    pub open spec fn spec_selected_item(&self) -> Option<ClipboardItem> {
        match self.selected {
            Some(s) => if s < self.filtered@.len() && self.filtered@[s as int]
                < self.items@.len() {
                Some(self.items@[self.filtered@[s as int] as int])
            } else {
                None
            },
            None => None,
        }
    }

    /// Construct an empty controller; the history is supplied separately
    /// at mode entry.
    pub fn new() -> (r: Self)
        ensures
            r.wf(),
            r.items@.len() == 0,
            r.query@ == Seq::<char>::empty(),
            r.filtered@.len() == 0,
            r.selected is None,
    {
        ClipboardListDelegate {
            items: Vec::new(),
            query: String::new(),
            filtered: Vec::new(),
            selected: None,
        }
    }

    /// Replace the backing entries and refilter with the current query;
    /// the cursor keeps its position, clamped into the new view.
    pub fn set_items(&mut self, items: Vec<ClipboardItem>)
        requires
            old(self).wf(),
        ensures
            final(self).wf(),
            final(self).items@ == items@,
            final(self).query@ == old(self).query@,
            ranked_ok(
                item_previews(items@),
                zero_prs(items@.len()),
                old(self).query@,
                final(self).filtered@,
            ),
            final(self).selected == crate::grid::clamp_cursor(
                old(self).selected,
                final(self).filtered@.len() as int,
            ),
    {
        self.items = items;
        let ranked = self.filter_now();
        let count = ranked.len();
        self.filtered = ranked;
        self.selected = match self.selected {
            Some(s) => if count == 0 {
                None
            } else if s < count {
                Some(s)
            } else {
                Some(count - 1)
            },
            None => if count == 0 {
                None
            } else {
                Some(0)
            },
        };
    }

    /// Record the query and refilter immediately; the cursor resets to
    /// the first match.
    pub fn set_query(&mut self, query: String)
        requires
            old(self).wf(),
        ensures
            final(self).wf(),
            final(self).items@ == old(self).items@,
            final(self).query@ == query@,
            ranked_ok(
                item_previews(old(self).items@),
                zero_prs(old(self).items@.len()),
                query@,
                final(self).filtered@,
            ),
            final(self).selected == (if final(self).filtered@.len() > 0 {
                Some(0usize)
            } else {
                None::<usize>
            }),
    {
        self.query = query;
        let ranked = self.filter_now();
        let count = ranked.len();
        self.filtered = ranked;
        self.selected = if count > 0 {
            Some(0)
        } else {
            None
        };
    }

    /// Rank the entries against the current query.
    fn filter_now(&self) -> (r: Vec<usize>)
        ensures
            ranked_ok(
                item_previews(self.items@),
                zero_prs(self.items@.len()),
                self.query@,
                r@,
            ),
            indices_ok(r@, self.items@.len() as int),
    {
        let n = self.items.len();
        let mut names: Vec<String> = Vec::new();
        let mut i: usize = 0;
        while i < n
            invariant
                n == self.items@.len(),
                i <= n,
                names@.len() == i,
                forall|k: int|
                    0 <= k < i ==> (#[trigger] names@[k])@ == self.items@[k].spec_preview(),
            decreases n - i,
        {
            names.push(self.items[i].preview());
            i = i + 1;
        }
        proof {
            assert(names.deep_view() =~= item_previews(self.items@)) by {
                assert forall|k: int| 0 <= k < n implies names.deep_view()[k] == item_previews(
                    self.items@,
                )[k] by {
                    assert(names.deep_view()[k] == names@[k]@);
                    assert(item_previews(self.items@)[k] == self.items@[k].spec_preview());
                }
            }
        }
        rank_uniform(&names, self.query.as_str())
    }

    /// The number of positions in the filtered view.
    pub fn filtered_count(&self) -> (r: usize)
        ensures
            r == self.filtered@.len(),
    {
        self.filtered.len()
    }

    /// The current query.
    pub fn query(&self) -> (r: &str)
        ensures
            r@ == self.query@,
    {
        self.query.as_str()
    }

    /// The cursor position, if the view is non-empty.
    pub fn selected_index(&self) -> (r: Option<usize>)
        ensures
            r == self.selected,
    {
        self.selected
    }

    /// Move the cursor to the next entry, wrapping at the end.
    pub fn select_down(&mut self)
        requires
            old(self).wf(),
        ensures
            final(self).wf(),
            clip_move_post(*old(self), *final(self), 1),
    {
        self.step_by(1);
    }

    /// Move the cursor to the previous entry, wrapping at the start.
    pub fn select_up(&mut self)
        requires
            old(self).wf(),
        ensures
            final(self).wf(),
            clip_move_post(*old(self), *final(self), -1),
    {
        self.step_by(-1);
    }

    /// Advance the cursor by `delta` positions with wraparound; a no-op
    /// when the view is empty.
    pub(crate) fn step_by(&mut self, delta: isize)
        requires
            old(self).wf(),
        ensures
            final(self).wf(),
            clip_move_post(*old(self), *final(self), delta as int),
    {
        let count = self.filtered.len();
        if count == 0 {
            return;
        }
        let cur = match self.selected {
            Some(s) => s,
            None => 0,
        };
        let next = wrapped_position(cur, delta, count);
        self.selected = Some(next);
    }

    /// The entry under the cursor, if any, as a copy.
    pub fn selected_item(&self) -> (r: Option<ClipboardItem>)
        requires
            self.wf(),
        ensures
            r is Some <==> self.spec_selected_item() is Some,
            r matches Some(it) ==> item_like(self.spec_selected_item()->0, it),
    {
        match self.selected {
            Some(s) => {
                let ix = self.filtered[s];
                Some(self.items[ix].clone())
            },
            None => None,
        }
    }

    /// The entry a confirm action hands to the host: the entry under
    /// the cursor, if any.
    pub fn do_confirm(&self) -> (r: Option<ClipboardItem>)
        requires
            self.wf(),
        ensures
            r is Some <==> self.spec_selected_item() is Some,
            r matches Some(it) ==> item_like(self.spec_selected_item()->0, it),
    {
        self.selected_item()
    }
}

/// How a navigation step changes a clipboard controller: only the
/// cursor moves, wrapping around the filtered view; nothing happens on
/// an empty view.
pub open spec fn clip_move_post(
    pre: ClipboardListDelegate,
    post: ClipboardListDelegate,
    delta: int,
) -> bool {
    &&& post.items@ == pre.items@
    &&& post.query@ == pre.query@
    &&& post.filtered@ == pre.filtered@
    &&& pre.filtered@.len() == 0 ==> post.selected == pre.selected
    &&& pre.filtered@.len() > 0 ==> post.selected == Some(
        wrap_step(pre.selected->0 as int, delta, pre.filtered@.len() as int) as usize,
    )
}

} // verus!
