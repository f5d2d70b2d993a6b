//! Fonts of the system: finding them, choosing one face for each family, and stacking the chosen
//! ones.

use vstd::prelude::*;
use vstd::string::*;

use crate::order::{
    before, lowercase, lowercased, order_is_strict, order_is_total, order_is_transitive,
    stands_before,
};
use crate::platform::Platform;
use crate::text::{
    ascii_lower_text, ascii_lowered, chars_of, contains_text, decimal, decimal_of, decimals_read_back,
    has, is_blank, number_in, opt_view, same_but_for_case, same_text, string_of, trim, trimmed, views,
};

verus! {

// ── Files ────────────────────────────────────────────────────────────────────

/// The place of the last full stop in a file name.
pub open spec fn last_stop(name: Seq<char>) -> Option<int>
    decreases name.len(),
{
    if name.len() == 0 {
        None
    } else if name.last() == '.' {
        Some(name.len() - 1)
    } else {
        last_stop(name.drop_last())
    }
}

/// What follows the last full stop of a file name, unless the name begins with it.
pub open spec fn extension(name: Seq<char>) -> Option<Seq<char>> {
    match last_stop(name) {
        Some(i) => if i == 0 {
            None
        } else {
            Some(name.skip(i + 1))
        },
        None => None,
    }
}

/// Whether a file name's extension is one of a font file, in whatever case.
pub open spec fn is_font_name(name: Seq<char>) -> bool {
    extension(name) matches Some(e) && {
        let lower = ascii_lower_text(e);
        lower == "ttf"@ || lower == "otf"@ || lower == "ttc"@ || lower == "otc"@
    }
}

proof fn last_stop_is_last(name: Seq<char>)
    ensures
        match last_stop(name) {
            Some(i) => 0 <= i < name.len() && name[i] == '.' && forall|j: int|
                i < j < name.len() ==> name[j] != '.',
            None => forall|j: int| 0 <= j < name.len() ==> name[j] != '.',
        },
    decreases name.len(),
{
    if name.len() > 0 && name.last() != '.' {
        last_stop_is_last(name.drop_last());
        match last_stop(name) {
            Some(i) => {
                assert(name.drop_last()[i] == name[i]);
                assert forall|j: int| i < j < name.len() implies name[j] != '.' by {
                    if j < name.len() - 1 {
                        assert(name.drop_last()[j] == name[j]);
                    }
                }
            },
            None => {
                assert forall|j: int| 0 <= j < name.len() implies name[j] != '.' by {
                    if j < name.len() - 1 {
                        assert(name.drop_last()[j] == name[j]);
                    }
                }
            },
        }
    }
}

/// Whether a file of this name is a font file that can be read.
pub fn is_supported_font_path(file_name: &str) -> (r: bool)
    ensures
        r == is_font_name(file_name@),
{
    let chars = chars_of(file_name);
    let n: usize = chars.len();
    let mut i: usize = n;
    proof {
        last_stop_is_last(file_name@);
    }
    while i > 0 && chars[i - 1] != '.'
        invariant
            i <= n,
            n == chars@.len(),
            chars@ == file_name@,
            forall|j: int| i <= j < n ==> chars@[j] != '.',
        decreases i,
    {
        i = i - 1;
    }
    if i <= 1 {
        proof {
            if i == 0 {
                assert(last_stop(file_name@) is None);
            } else {
                assert(file_name@[0] == '.');
                assert(last_stop(file_name@) == Some(0int));
            }
        }
        return false;
    }
    let e = ascii_lowered(string_of(&chars, i, n).as_str());
    proof {
        assert(file_name@[i - 1] == '.');
        assert(last_stop(file_name@) == Some(i - 1));
        assert(chars@.subrange(i as int, n as int) =~= file_name@.skip(i as int));
    }
    same_text(e.as_str(), "ttf") || same_text(e.as_str(), "otf") || same_text(e.as_str(), "ttc")
        || same_text(e.as_str(), "otc")
}

/// What a directory entry is.
#[derive(Clone, Copy, Debug, PartialEq, Eq, Structural)]
pub enum EntryKind {
    Directory,
    File,
    Other,
}

/// An entry of a directory: where it is, what it is, and its name where that is text.
pub struct Entry<P> {
    pub path: P,
    pub kind: EntryKind,
    pub name: Option<String>,
}

/// Whether an entry is a font file.
pub open spec fn is_font_file<P>(e: Entry<P>) -> bool {
    e.kind == EntryKind::File && (e.name matches Some(n) && is_font_name(n@))
}

/// Where a walk stands: directories still to read, the last one first, and font files found.
#[verifier::ext_equal]
pub struct WalkModel<P> {
    pub pending: Seq<P>,
    pub files: Seq<P>,
}

impl<P> WalkModel<P> {
    /// The walk after some entries of a directory.
    pub open spec fn seen(self, entries: Seq<Entry<P>>) -> WalkModel<P>
        decreases entries.len(),
    {
        if entries.len() == 0 {
            self
        } else {
            let m = self.seen(entries.drop_last());
            let e = entries.last();
            if e.kind == EntryKind::Directory {
                WalkModel { pending: m.pending.push(e.path), files: m.files }
            } else if is_font_file(e) {
                WalkModel { pending: m.pending, files: m.files.push(e.path) }
            } else {
                m
            }
        }
    }
}

/// A walk through the font directories, over paths of type `P`.
pub struct FontWalk<P> {
    pending: Vec<P>,
    files: Vec<P>,
}

impl<P> View for FontWalk<P> {
    type V = WalkModel<P>;

    closed spec fn view(&self) -> WalkModel<P> {
        WalkModel { pending: self.pending@, files: self.files@ }
    }
}

impl<P> FontWalk<P> {
    /// A walk that begins at some directories.
    pub fn new(directories: Vec<P>) -> (r: FontWalk<P>)
        ensures
            r@ == (WalkModel { pending: directories@, files: Seq::<P>::empty() }),
    {
        FontWalk { pending: directories, files: Vec::new() }
    }

    /// The directory to read next; `None` when the walk is over.
    pub fn next_directory(&mut self) -> (r: Option<P>)
        ensures
            match r {
                Some(d) => old(self)@.pending.len() > 0 && d == old(self)@.pending.last()
                    && final(self)@ == (WalkModel {
                    pending: old(self)@.pending.drop_last(),
                    ..old(self)@
                }),
                None => old(self)@.pending.len() == 0 && final(self)@ == old(self)@,
            },
    {
        self.pending.pop()
    }

    /// Take in the entries of a directory.
    pub fn visit(&mut self, entries: Vec<Entry<P>>)
        ensures
            final(self)@ == old(self)@.seen(entries@),
    {
        let ghost all = entries@;
        let ghost start = self@;
        for e in it: entries
            invariant
                it.seq() == all,
                self@ == start.seen(all.take(it.index() as int)),
        {
            proof {
                let k = it.index() as int;
                assert(all.take(k + 1).drop_last() =~= all.take(k));
                assert(all.take(k + 1).last() == e);
            }
            let font = match &e.name {
                Some(n) => is_supported_font_path(n.as_str()),
                None => false,
            };
            if e.kind == EntryKind::Directory {
                self.pending.push(e.path);
            } else if e.kind == EntryKind::File && font {
                self.files.push(e.path);
            }
        }
        proof {
            assert(all.take(all.len() as int) =~= all);
        }
    }

    /// The font files that were found, in the order they were found in.
    pub fn into_files(self) -> (r: Vec<P>)
        ensures
            r@ == self@.files,
    {
        self.files
    }
}

/// A directory below another, or the other itself.
pub struct FontDirectory {
    pub base: String,
    pub below: Option<&'static str>,
}

/// The parts of a directory.
pub open spec fn directory_view(d: FontDirectory) -> (Seq<char>, Option<Seq<char>>) {
    (
        d.base@,
        match d.below {
            Some(b) => Some(b@),
            None => None,
        },
    )
}

/// The parts of a list of directories.
pub open spec fn directory_views(list: Seq<FontDirectory>) -> Seq<(Seq<char>, Option<Seq<char>>)> {
    list.map_values(|d: FontDirectory| directory_view(d))
}

/// Where a platform keeps its fonts. `windows_dir` and `local_data` matter on Windows only,
/// `home` elsewhere.
pub open spec fn font_directories(
    platform: Platform,
    windows_dir: Option<String>,
    local_data: Option<String>,
    home: Option<String>,
) -> Seq<(Seq<char>, Option<Seq<char>>)> {
    match platform {
        Platform::Windows => seq![
            (
                match windows_dir {
                    Some(d) => d@,
                    None => "C:\\Windows"@,
                },
                Some("Fonts"@),
            ),
        ] + (match local_data {
            Some(d) => seq![(d@, Some("Microsoft\\Windows\\Fonts"@))],
            None => seq![],
        }),
        Platform::MacOs => seq![
            ("/System/Library/Fonts"@, None::<Seq<char>>),
            ("/Library/Fonts"@, None::<Seq<char>>),
        ] + (match home {
            Some(h) => seq![(h@, Some("Library/Fonts"@))],
            None => seq![],
        }),
        Platform::Linux { wayland, hyprland } => seq![
            ("/usr/share/fonts"@, None::<Seq<char>>),
            ("/usr/local/share/fonts"@, None::<Seq<char>>),
        ] + (match home {
            Some(h) => seq![(h@, Some(".local/share/fonts"@)), (h@, Some(".fonts"@))],
            None => seq![],
        }),
        Platform::Other(_) => seq![],
    }
}

/// Where a platform keeps its fonts.
pub fn system_font_directories(
    platform: &Platform,
    windows_dir: &Option<String>,
    local_data: &Option<String>,
    home: &Option<String>,
) -> (r: Vec<FontDirectory>)
    ensures
        directory_views(r@) == font_directories(*platform, *windows_dir, *local_data, *home),
{
    let mut list: Vec<FontDirectory> = Vec::new();
    match platform {
        Platform::Windows => {
            list.push(
                FontDirectory {
                    base: match windows_dir {
                        Some(d) => d.clone(),
                        None => "C:\\Windows".to_owned(),
                    },
                    below: Some("Fonts"),
                },
            );
            if let Some(d) = local_data {
                list.push(
                    FontDirectory { base: d.clone(), below: Some("Microsoft\\Windows\\Fonts") },
                );
            }
        },
        Platform::MacOs => {
            list.push(FontDirectory { base: "/System/Library/Fonts".to_owned(), below: None });
            list.push(FontDirectory { base: "/Library/Fonts".to_owned(), below: None });
            if let Some(h) = home {
                list.push(FontDirectory { base: h.clone(), below: Some("Library/Fonts") });
            }
        },
        Platform::Linux { .. } => {
            list.push(FontDirectory { base: "/usr/share/fonts".to_owned(), below: None });
            list.push(FontDirectory { base: "/usr/local/share/fonts".to_owned(), below: None });
            if let Some(h) = home {
                list.push(FontDirectory { base: h.clone(), below: Some(".local/share/fonts") });
                list.push(FontDirectory { base: h.clone(), below: Some(".fonts") });
            }
        },
        Platform::Other(_) => {},
    }
    proof {
        assert(directory_views(list@) =~= font_directories(
            *platform,
            *windows_dir,
            *local_data,
            *home,
        ));
    }
    list
}

/// Font files with Chinese, Japanese and Korean letters, the preferred one first. On Windows they
/// are names in the font directory, elsewhere whole paths.
pub open spec fn cjk_candidates(platform: Platform) -> Seq<Seq<char>> {
    match platform {
        Platform::Windows => seq!["Noto Sans SC (TrueType).otf"@, "msyh.ttc"@, "simhei.ttf"@],
        Platform::MacOs => seq![
            "/System/Library/Fonts/PingFang.ttc"@,
            "/System/Library/Fonts/STHeiti Light.ttc"@,
            "/Library/Fonts/Arial Unicode.ttf"@,
        ],
        Platform::Linux { wayland, hyprland } => seq![
            "/usr/share/fonts/opentype/noto/NotoSansCJK-Regular.ttc"@,
            "/usr/share/fonts/truetype/noto/NotoSansCJK-Regular.ttc"@,
            "/usr/share/fonts/opentype/noto/NotoSansCJKsc-Regular.otf"@,
            "/usr/share/fonts/truetype/wqy/wqy-microhei.ttc"@,
        ],
        Platform::Other(_) => seq![],
    }
}

/// Font files with Chinese, Japanese and Korean letters, the preferred one first.
pub fn system_cjk_font_candidates(platform: &Platform) -> (r: Vec<String>)
    ensures
        views(r@) == cjk_candidates(*platform),
{
    let mut list: Vec<String> = Vec::new();
    match platform {
        Platform::Windows => {
            list.push("Noto Sans SC (TrueType).otf".to_owned());
            list.push("msyh.ttc".to_owned());
            list.push("simhei.ttf".to_owned());
        },
        Platform::MacOs => {
            list.push("/System/Library/Fonts/PingFang.ttc".to_owned());
            list.push("/System/Library/Fonts/STHeiti Light.ttc".to_owned());
            list.push("/Library/Fonts/Arial Unicode.ttf".to_owned());
        },
        Platform::Linux { .. } => {
            list.push("/usr/share/fonts/opentype/noto/NotoSansCJK-Regular.ttc".to_owned());
            list.push("/usr/share/fonts/truetype/noto/NotoSansCJK-Regular.ttc".to_owned());
            list.push("/usr/share/fonts/opentype/noto/NotoSansCJKsc-Regular.otf".to_owned());
            list.push("/usr/share/fonts/truetype/wqy/wqy-microhei.ttc".to_owned());
        },
        Platform::Other(_) => {},
    }
    proof {
        assert(views(list@) =~= cjk_candidates(*platform));
    }
    list
}

// ── Faces ────────────────────────────────────────────────────────────────────

/// The names a font face gives itself, and its place in a collection.
pub struct FaceNames {
    pub typographic_family: Option<String>,
    pub family: Option<String>,
    pub typographic_style: Option<String>,
    pub style: Option<String>,
    pub index: Option<u32>,
}

/// The names of a face: typographic family, family, typographic style, style; and its place.
pub type Face = (
    Option<Seq<char>>,
    Option<Seq<char>>,
    Option<Seq<char>>,
    Option<Seq<char>>,
    Option<u32>,
);

/// The contents of [`FaceNames`].
pub open spec fn face_view(f: FaceNames) -> Face {
    (
        opt_view(f.typographic_family),
        opt_view(f.family),
        opt_view(f.typographic_style),
        opt_view(f.style),
        f.index,
    )
}

/// The contents of a list of faces, some of which could not be read.
pub open spec fn face_views(list: Seq<Option<FaceNames>>) -> Seq<Option<Face>> {
    list.map_values(
        |f: Option<FaceNames>|
            match f {
                Some(x) => Some(face_view(x)),
                None => None,
            },
    )
}

/// What `skrifa` reads of a font file: the faces in it with their names, `None` for a face that
/// cannot be read; `None` where the bytes are no font file.
pub uninterp spec fn font_faces(bytes: Seq<u8>) -> Option<
    Seq<
        Option<
            (
                Option<Seq<char>>,
                Option<Seq<char>>,
                Option<Seq<char>>,
                Option<Seq<char>>,
                Option<u32>,
            ),
        >,
    >,
>;

/// Reads the faces of a font file with `skrifa::raw::FileRef` and, for each, the English or else
/// the first of its names. Trusted: the outcome depends on the bytes alone. What is a font file,
/// and what its names are, is left to the font parser.
#[verifier::external_body]
fn faces_in(bytes: &[u8]) -> (r: Option<Vec<Option<FaceNames>>>)
    ensures
        match r {
            Some(list) => font_faces(bytes@) == Some(face_views(list@)),
            None => font_faces(bytes@) is None,
        },
{
    let file = skrifa::raw::FileRef::new(bytes).ok()?;
    let name = |font: &skrifa::FontRef, id: skrifa::string::StringId| {
        let strings = skrifa::MetadataProvider::localized_strings(font, id);
        strings.english_or_first().map(|n| n.to_string())
    };
    let names = |font: skrifa::FontRef| FaceNames {
        typographic_family: name(&font, skrifa::string::StringId::TYPOGRAPHIC_FAMILY_NAME),
        family: name(&font, skrifa::string::StringId::FAMILY_NAME),
        typographic_style: name(&font, skrifa::string::StringId::TYPOGRAPHIC_SUBFAMILY_NAME),
        style: name(&font, skrifa::string::StringId::SUBFAMILY_NAME),
        index: font.ttc_index(),
    };
    Some(file.fonts().map(|font| font.ok().map(names)).collect())
}

/// How far a style is from the regular one: nought for the regular style itself, one where its
/// name speaks of it, two otherwise.
pub open spec fn style_rank(style: Seq<char>) -> u8 {
    let s = lowercase(trim(style));
    if s == "regular"@ || s == "normal"@ || s == "book"@ || s == "roman"@ {
        0
    } else if has(s, "regular"@) || has(s, "normal"@) {
        1
    } else {
        2
    }
}

/// How far a style is from the regular one.
pub fn regular_style_rank(style: &str) -> (r: u8)
    ensures
        r == style_rank(style@),
{
    let lower = lowercased(trimmed(style).as_str());
    let s = lower.as_str();
    if same_text(s, "regular") || same_text(s, "normal") || same_text(s, "book") || same_text(
        s,
        "roman",
    ) {
        0
    } else if contains_text(s, "regular") || contains_text(s, "normal") {
        1
    } else {
        2
    }
}

/// The family a face belongs to: its typographic one, else its plain one, unless it is blank.
pub open spec fn family_of(f: Face) -> Option<Seq<char>> {
    let name = match f.0 {
        Some(n) => Some(n),
        None => f.1,
    };
    match name {
        Some(n) => if trim(n).len() == 0 {
            None
        } else {
            Some(n)
        },
        None => None,
    }
}

/// Whether a face could be read and belongs to a family.
pub open spec fn names_family(f: Option<Face>) -> bool {
    f matches Some(x) && family_of(x) is Some
}

/// The style of a face: its typographic one, else its plain one, else none at all.
pub open spec fn style_of(f: Face) -> Seq<char> {
    match f.2 {
        Some(n) => n,
        None => match f.3 {
            Some(n) => n,
            None => seq![],
        },
    }
}

// ── The catalogue ────────────────────────────────────────────────────────────

/// A family with the face that stands for it: the number of its file and its place there.
#[derive(Debug)]
pub struct SystemFont {
    pub family: String,
    pub file: usize,
    pub face_index: u32,
}

impl Clone for SystemFont {
    fn clone(&self) -> (r: SystemFont)
        ensures
            r.family@ == self.family@,
            r.file == self.file,
            r.face_index == self.face_index,
    {
        SystemFont {
            family: self.family.clone(),
            file: self.file,
            face_index: self.face_index,
        }
    }
}

/// The contents of a [`SystemFont`]: family, file and place.
pub open spec fn font_view(f: SystemFont) -> (Seq<char>, usize, u32) {
    (f.family@, f.file, f.face_index)
}

/// The contents of a list of fonts.
pub open spec fn font_views(list: Seq<SystemFont>) -> Seq<(Seq<char>, usize, u32)> {
    list.map_values(|f: SystemFont| font_view(f))
}

/// A family in the catalogue: under which key, with which face, and how good that is.
#[verifier::ext_equal]
pub struct Listing {
    pub key: Seq<char>,
    pub font: (Seq<char>, usize, u32),
    pub rank: u8,
}

/// The listing a face asks for.
pub open spec fn listing_of(f: Face, family: Seq<char>, file: usize) -> Listing {
    Listing {
        key: lowercase(family),
        font: (
            family,
            file,
            match f.4 {
                Some(i) => i,
                None => 0,
            },
        ),
        rank: style_rank(style_of(f)),
    }
}

/// A catalogue with one more face: in the place of its key, instead of a worse face of the same
/// family, or not at all.
pub open spec fn settled(list: Seq<Listing>, e: Listing) -> Seq<Listing>
    decreases list.len(),
{
    if list.len() == 0 {
        seq![e]
    } else if list.last().key == e.key {
        if e.rank < list.last().rank {
            list.drop_last().push(e)
        } else {
            list
        }
    } else if before(e.key, list.last().key) {
        settled(list.drop_last(), e).push(list.last())
    } else {
        list.push(e)
    }
}

/// A catalogue with the faces of one more file.
pub open spec fn with_faces(list: Seq<Listing>, faces: Seq<Option<Face>>, file: usize) -> Seq<
    Listing,
>
    decreases faces.len(),
{
    if faces.len() == 0 {
        list
    } else {
        let rest = with_faces(list, faces.drop_last(), file);
        match faces.last() {
            Some(f) => match family_of(f) {
                Some(family) => settled(rest, listing_of(f, family, file)),
                None => rest,
            },
            None => rest,
        }
    }
}

/// Whether the keys of a catalogue grow from one entry to the next.
pub open spec fn is_sorted(list: Seq<Listing>) -> bool {
    forall|i: int, j: int|
        0 <= i < j < list.len() ==> before((#[trigger] list[i]).key, (#[trigger] list[j]).key)
}

proof fn strict_order_chains(a: Seq<char>, b: Seq<char>, c: Seq<char>)
    requires
        before(a, b),
        before(b, c),
    ensures
        before(a, c),
{
    order_is_strict(a, b);
    order_is_strict(b, c);
    order_is_transitive(a, b, c);
    order_is_total(a, c);
}

/// Whether a catalogue holds a face of a family that is at least this good.
pub open spec fn holds(list: Seq<Listing>, key: Seq<char>, rank: u8) -> bool {
    exists|i: int| 0 <= i < list.len() && (#[trigger] list[i]).key == key && list[i].rank <= rank
}

/// Settling a face keeps the catalogue sorted, gives the face's family a face that is at least as
/// good, and leaves no family worse off.
pub proof fn settling_improves(list: Seq<Listing>, e: Listing)
    requires
        is_sorted(list),
    ensures
        is_sorted(settled(list, e)),
        holds(settled(list, e), e.key, e.rank),
        forall|key: Seq<char>, rank: u8| #[trigger]
            holds(list, key, rank) ==> holds(settled(list, e), key, rank),
        forall|i: int|
            0 <= i < settled(list, e).len() ==> (#[trigger] settled(list, e)[i]).key == e.key
                || exists|j: int| 0 <= j < list.len() && settled(list, e)[i] == list[j],
    decreases list.len(),
{
    let all = settled(list, e);
    if list.len() == 0 {
        assert(all[0] == e);
    } else if list.last().key == e.key {
        let n = list.len() - 1;
        if e.rank < list.last().rank {
            assert(all[n] == e);
            assert forall|key: Seq<char>, rank: u8| #[trigger] holds(list, key, rank) implies holds(
                all,
                key,
                rank,
            ) by {
                let i = choose|i: int|
                    0 <= i < list.len() && (#[trigger] list[i]).key == key && list[i].rank <= rank;
                if i < n {
                    assert(all[i] == list[i]);
                } else {
                    assert(all[n].key == key && all[n].rank <= rank);
                }
            }
            assert forall|i: int| 0 <= i < all.len() implies (#[trigger] all[i]).key == e.key
                || exists|j: int| 0 <= j < list.len() && all[i] == list[j] by {
                if i < n {
                    assert(all[i] == list[i]);
                }
            }
        } else {
            assert(list[n].key == e.key && list[n].rank <= e.rank);
        }
    } else if before(e.key, list.last().key) {
        let front = list.drop_last();
        let last = list.last();
        assert forall|i: int, j: int| 0 <= i < j < front.len() implies before(
            (#[trigger] front[i]).key,
            (#[trigger] front[j]).key,
        ) by {
            assert(front[i] == list[i] && front[j] == list[j]);
        }
        settling_improves(front, e);
        let rest = settled(front, e);
        assert forall|i: int, j: int| 0 <= i < j < all.len() implies before(
            (#[trigger] all[i]).key,
            (#[trigger] all[j]).key,
        ) by {
            if j == rest.len() {
                assert(all[i] == rest[i]);
                if rest[i].key != e.key {
                    let k = choose|k: int| 0 <= k < front.len() && rest[i] == front[k];
                    assert(front[k] == list[k]);
                    assert(list[list.len() - 1] == last);
                }
            } else {
                assert(all[i] == rest[i] && all[j] == rest[j]);
            }
        }
        let w = choose|i: int|
            0 <= i < rest.len() && (#[trigger] rest[i]).key == e.key && rest[i].rank <= e.rank;
        assert(all[w] == rest[w]);
        assert forall|key: Seq<char>, rank: u8| #[trigger] holds(list, key, rank) implies holds(
            all,
            key,
            rank,
        ) by {
            let i = choose|i: int|
                0 <= i < list.len() && (#[trigger] list[i]).key == key && list[i].rank <= rank;
            if i < front.len() {
                assert(front[i] == list[i]);
                assert(holds(front, key, rank));
                let k = choose|k: int|
                    0 <= k < rest.len() && (#[trigger] rest[k]).key == key && rest[k].rank <= rank;
                assert(all[k] == rest[k]);
            } else {
                assert(all[rest.len() as int] == last);
            }
        }
        assert forall|i: int| 0 <= i < all.len() implies (#[trigger] all[i]).key == e.key
            || exists|j: int| 0 <= j < list.len() && all[i] == list[j] by {
            if i < rest.len() {
                assert(all[i] == rest[i]);
                if rest[i].key != e.key {
                    let k = choose|k: int| 0 <= k < front.len() && rest[i] == front[k];
                    assert(all[i] == list[k]);
                }
            } else {
                assert(all[i] == list[list.len() - 1]);
            }
        }
    } else {
        order_is_total(e.key, list.last().key);
        assert forall|i: int, j: int| 0 <= i < j < all.len() implies before(
            (#[trigger] all[i]).key,
            (#[trigger] all[j]).key,
        ) by {
            if j == list.len() {
                assert(list[list.len() - 1] == list.last());
                if i < list.len() - 1 {
                    strict_order_chains(list[i].key, list.last().key, e.key);
                }
            }
        }
        assert(all[list.len() as int] == e);
        assert forall|key: Seq<char>, rank: u8| #[trigger] holds(list, key, rank) implies holds(
            all,
            key,
            rank,
        ) by {
            let i = choose|i: int|
                0 <= i < list.len() && (#[trigger] list[i]).key == key && list[i].rank <= rank;
            assert(all[i] == list[i]);
        }
        assert forall|i: int| 0 <= i < all.len() implies (#[trigger] all[i]).key == e.key
            || exists|j: int| 0 <= j < list.len() && all[i] == list[j] by {
            if i < list.len() {
                assert(all[i] == list[i]);
            }
        }
    }
}

/// Whatever faces a file holds: the catalogue stays sorted, no family is worse off, and every
/// face that names a family finds its family represented by a face that is at least as regular.
pub proof fn the_most_regular_face_wins(list: Seq<Listing>, faces: Seq<Option<Face>>, file: usize)
    requires
        is_sorted(list),
    ensures
        is_sorted(with_faces(list, faces, file)),
        forall|key: Seq<char>, rank: u8| #[trigger]
            holds(list, key, rank) ==> holds(with_faces(list, faces, file), key, rank),
        forall|i: int|
            0 <= i < faces.len() && names_family(#[trigger] faces[i]) ==> (holds(
                with_faces(list, faces, file),
                lowercase(family_of(faces[i]->0)->0),
                style_rank(style_of(faces[i]->0)),
            )),
    decreases faces.len(),
{
    if faces.len() > 0 {
        let front = faces.drop_last();
        the_most_regular_face_wins(list, front, file);
        let rest = with_faces(list, front, file);
        match faces.last() {
            Some(f) => match family_of(f) {
                Some(family) => {
                    settling_improves(rest, listing_of(f, family, file));
                },
                None => {},
            },
            None => {},
        }
        assert forall|i: int| 0 <= i < faces.len() && names_family(#[trigger] faces[i]) implies (
        holds(
            with_faces(list, faces, file),
            lowercase(family_of(faces[i]->0)->0),
            style_rank(style_of(faces[i]->0)),
        )) by {
            if i < front.len() {
                assert(front[i] == faces[i]);
            }
        }
    }
}

struct FontEntry {
    key: String,
    font: SystemFont,
    rank: u8,
}

spec fn listing(e: FontEntry) -> Listing {
    Listing { key: e.key@, font: font_view(e.font), rank: e.rank }
}

spec fn listings(list: Seq<FontEntry>) -> Seq<Listing> {
    list.map_values(|e: FontEntry| listing(e))
}

/// The families found so far.
pub struct FontCatalog {
    entries: Vec<FontEntry>,
}

impl View for FontCatalog {
    type V = Seq<Listing>;

    closed spec fn view(&self) -> Seq<Listing> {
        listings(self.entries@)
    }
}

impl FontCatalog {
    /// No family yet.
    pub fn new() -> (r: FontCatalog)
        ensures
            r@ == Seq::<Listing>::empty(),
    {
        let r = FontCatalog { entries: Vec::new() };
        proof {
            assert(r@ =~= Seq::<Listing>::empty());
        }
        r
    }

    fn settle(&mut self, e: FontEntry)
        ensures
            final(self)@ == settled(old(self)@, listing(e)),
    {
        let ghost all = self@;
        let ghost l = listing(e);
        let mut p: usize = self.entries.len();
        proof {
            assert(all.take(p as int) =~= all);
            assert(settled(all, l) =~= settled(all.take(p as int), l) + all.skip(p as int));
        }
        while p > 0 && stands_before(e.key.as_str(), self.entries[p - 1].key.as_str())
            invariant
                p <= self.entries@.len(),
                all == listings(self.entries@),
                self@ == all,
                l == listing(e),
                settled(all, l) == settled(all.take(p as int), l) + all.skip(p as int),
            decreases p,
        {
            proof {
                let k = p as int;
                assert(all.take(k).last() == all[k - 1]);
                assert(all.take(k).drop_last() =~= all.take(k - 1));
                order_is_strict(l.key, l.key);
                assert(settled(all.take(k), l) + all.skip(k) =~= settled(all.take(k - 1), l)
                    + all.skip(k - 1));
            }
            p = p - 1;
        }
        let ghost k = p as int;
        proof {
            if k > 0 {
                assert(all.take(k).last() == all[k - 1]);
            }
        }
        if p > 0 && same_text(e.key.as_str(), self.entries[p - 1].key.as_str()) {
            if e.rank < self.entries[p - 1].rank {
                self.entries.set(p - 1, e);
                proof {
                    assert(self@ =~= all.take(k).drop_last().push(l) + all.skip(k));
                }
            } else {
                proof {
                    assert(self@ =~= all.take(k) + all.skip(k));
                }
            }
        } else {
            self.entries.insert(p, e);
            proof {
                assert(settled(all.take(k), l) =~= all.take(k).push(l));
                assert(self@ =~= all.take(k).push(l) + all.skip(k));
            }
        }
    }

    /// Take in the faces of a file, those that could be read.
    pub fn add_faces(&mut self, file: usize, faces: &Vec<Option<FaceNames>>)
        ensures
            final(self)@ == with_faces(old(self)@, face_views(faces@), file),
    {
        let ghost all = face_views(faces@);
        let ghost start = self@;
        let n: usize = faces.len();
        let mut i: usize = 0;
        while i < n
            invariant
                i <= n,
                n == faces@.len(),
                all == face_views(faces@),
                self@ == with_faces(start, all.take(i as int), file),
            decreases n - i,
        {
            proof {
                let k = i as int;
                assert(all.take(k + 1).drop_last() =~= all.take(k));
                assert(all.take(k + 1).last() == all[k]);
            }
            if let Some(f) = &faces[i] {
                let family = if f.typographic_family.is_some() {
                    &f.typographic_family
                } else {
                    &f.family
                };
                if let Some(name) = family {
                    if !is_blank(name.as_str()) {
                        let style = if f.typographic_style.is_some() {
                            &f.typographic_style
                        } else {
                            &f.style
                        };
                        let rank: u8 = match style {
                            Some(s) => regular_style_rank(s.as_str()),
                            None => {
                                proof {
                                    reveal_strlit("");
                                    assert(""@ =~= Seq::<char>::empty());
                                }
                                regular_style_rank("")
                            },
                        };
                        let face_index: u32 = f.index.unwrap_or(0);
                        let e = FontEntry {
                            key: lowercased(name.as_str()),
                            font: SystemFont { family: name.clone(), file, face_index },
                            rank,
                        };
                        proof {
                            assert(listing(e) =~= listing_of(face_view(*f), name@, file));
                        }
                        self.settle(e);
                    }
                }
            }
            i = i + 1;
        }
        proof {
            assert(all.take(n as int) =~= all);
        }
    }

    /// Take in a font file. One that cannot be read adds nothing.
    pub fn add_file(&mut self, file: usize, bytes: &[u8])
        ensures
            final(self)@ == (match font_faces(bytes@) {
                Some(faces) => with_faces(old(self)@, faces, file),
                None => old(self)@,
            }),
    {
        if let Some(faces) = faces_in(bytes) {
            self.add_faces(file, &faces);
        }
    }

    /// The families, in the order of their keys.
    pub fn list_system_fonts(&self) -> (r: Vec<SystemFont>)
        ensures
            font_views(r@) == self@.map_values(|l: Listing| l.font),
    {
        let ghost all = self@.map_values(|l: Listing| l.font);
        let n: usize = self.entries.len();
        let mut out: Vec<SystemFont> = Vec::new();
        let mut i: usize = 0;
        while i < n
            invariant
                i <= n,
                n == self.entries@.len(),
                all == listings(self.entries@).map_values(|l: Listing| l.font),
                font_views(out@) == all.take(i as int),
            decreases n - i,
        {
            let ghost had = font_views(out@);
            out.push(self.entries[i].font.clone());
            proof {
                assert(font_views(out@) =~= had.push(all[i as int]));
                assert(font_views(out@) =~= all.take(i + 1));
            }
            i = i + 1;
        }
        proof {
            assert(all.take(n as int) =~= all);
        }
        out
    }
}

// ── Installing ───────────────────────────────────────────────────────────────

/// How many fonts were loaded, and what went wrong with others.
#[derive(Debug)]
pub struct FontLoadReport {
    pub loaded: usize,
    pub errors: Vec<String>,
}

impl Default for FontLoadReport {
    fn default() -> (r: FontLoadReport)
        ensures
            r.loaded == 0,
            r.errors@.len() == 0,
    {
        FontLoadReport { loaded: 0, errors: Vec::new() }
    }
}

/// The name a chosen font is registered under.
pub open spec fn custom_name(index: nat) -> Seq<char> {
    "auto_voice_custom_"@ + decimal(index)
}

/// A complaint about a family.
pub open spec fn complaint(family: Seq<char>, reason: Seq<char>) -> Seq<char> {
    family + "："@ + reason
}

/// Why a family that is not installed is not used.
pub const NOT_INSTALLED: &'static str = "系统中未找到该字体";

/// The first font whose family is named so, in whatever ASCII case.
pub open spec fn font_named(fonts: Seq<SystemFont>, family: Seq<char>) -> Option<int>
    decreases fonts.len(),
{
    if fonts.len() == 0 {
        None
    } else {
        match font_named(fonts.drop_last(), family) {
            Some(i) => Some(i),
            None => if ascii_lower_text(fonts.last().family@) == ascii_lower_text(family) {
                Some(fonts.len() - 1)
            } else {
                None
            },
        }
    }
}

/// What to do about a chosen family.
pub enum FontStep {
    /// Leave it out, with this complaint.
    Complain(String),
    /// Read the file of the font at this place of the list and register it under this name.
    Load { name: String, font: usize, family: String },
}

/// The contents of a [`FontStep`].
#[verifier::ext_equal]
pub enum FontStepView {
    Complain(Seq<char>),
    Load { name: Seq<char>, font: int, family: Seq<char> },
}

/// The contents of a step.
pub open spec fn step_view(s: FontStep) -> FontStepView {
    match s {
        FontStep::Complain(m) => FontStepView::Complain(m@),
        FontStep::Load { name, font, family } => FontStepView::Load {
            name: name@,
            font: font as int,
            family: family@,
        },
    }
}

/// The contents of a list of steps.
pub open spec fn step_views(list: Seq<FontStep>) -> Seq<FontStepView> {
    list.map_values(|s: FontStep| step_view(s))
}

/// What to do about the chosen families, in their order. Blank ones are passed over.
pub open spec fn font_steps(selected: Seq<Seq<char>>, fonts: Seq<SystemFont>) -> Seq<FontStepView>
    decreases selected.len(),
{
    if selected.len() == 0 {
        seq![]
    } else {
        let rest = font_steps(selected.drop_last(), fonts);
        let family = trim(selected.last());
        if family.len() == 0 {
            rest
        } else {
            match font_named(fonts, family) {
                Some(i) => rest.push(
                    FontStepView::Load {
                        name: custom_name((selected.len() - 1) as nat),
                        font: i,
                        family,
                    },
                ),
                None => rest.push(FontStepView::Complain(complaint(family, NOT_INSTALLED@))),
            }
        }
    }
}

fn find_font(fonts: &Vec<SystemFont>, family: &str) -> (r: Option<usize>)
    ensures
        (match r {
            Some(i) => Some(i as int),
            None => None,
        }) == font_named(fonts@, family@),
        r matches Some(i) ==> i < fonts@.len(),
{
    let n: usize = fonts.len();
    let mut i: usize = 0;
    while i < n
        invariant
            i <= n,
            n == fonts@.len(),
            font_named(fonts@.take(i as int), family@) is None,
        decreases n - i,
    {
        proof {
            let k = i as int;
            assert(fonts@.take(k + 1).drop_last() =~= fonts@.take(k));
            assert(fonts@.take(k + 1).last() == fonts@[k]);
        }
        if same_but_for_case(fonts[i].family.as_str(), family) {
            proof {
                found_stays_found(fonts@, family@, i + 1);
            }
            return Some(i);
        }
        i = i + 1;
    }
    proof {
        assert(fonts@.take(n as int) =~= fonts@);
    }
    None
}

proof fn found_stays_found(fonts: Seq<SystemFont>, family: Seq<char>, k: int)
    requires
        0 <= k <= fonts.len(),
        font_named(fonts.take(k), family) is Some,
    ensures
        font_named(fonts, family) == font_named(fonts.take(k), family),
    decreases fonts.len(),
{
    if k < fonts.len() {
        assert(fonts.drop_last().take(k) =~= fonts.take(k));
        found_stays_found(fonts.drop_last(), family, k);
    } else {
        assert(fonts.take(k) =~= fonts);
    }
}

fn complain(family: &str, reason: &str) -> (r: String)
    ensures
        r@ == complaint(family@, reason@),
{
    let mut m = family.to_owned();
    m.append("：");
    m.append(reason);
    m
}

/// What to do about the chosen families.
pub fn install_ui_fonts(selected: &Vec<String>, fonts: &Vec<SystemFont>) -> (r: Vec<FontStep>)
    ensures
        step_views(r@) == font_steps(views(selected@), fonts@),
{
    let ghost all = views(selected@);
    let n: usize = selected.len();
    let mut steps: Vec<FontStep> = Vec::new();
    let mut i: usize = 0;
    proof {
        assert(step_views(steps@) =~= font_steps(all.take(0), fonts@));
    }
    while i < n
        invariant
            i <= n,
            n == selected@.len(),
            all == views(selected@),
            step_views(steps@) == font_steps(all.take(i as int), fonts@),
        decreases n - i,
    {
        let ghost k = i as int;
        let ghost had = step_views(steps@);
        proof {
            assert(all.take(k + 1).drop_last() =~= all.take(k));
            assert(all.take(k + 1).last() == all[k]);
        }
        let family = trimmed(selected[i].as_str());
        if !family.as_str().is_empty() {
            let ghost named = family@;
            match find_font(fonts, family.as_str()) {
                Some(at) => {
                    let mut name = "auto_voice_custom_".to_owned();
                    name.append(decimal_of(i as u64).as_str());
                    steps.push(FontStep::Load { name, font: at, family });
                    proof {
                        assert(step_views(steps@) =~= had.push(
                            FontStepView::Load {
                                name: custom_name(k as nat),
                                font: at as int,
                                family: named,
                            },
                        ));
                    }
                },
                None => {
                    steps.push(FontStep::Complain(complain(family.as_str(), NOT_INSTALLED)));
                    proof {
                        assert(step_views(steps@) =~= had.push(
                            FontStepView::Complain(complaint(named, NOT_INSTALLED@)),
                        ));
                    }
                },
            }
        }
        i = i + 1;
    }
    proof {
        assert(all.take(n as int) =~= all);
    }
    steps
}

impl FontLoadReport {
    /// A family is left out.
    pub fn complained(&mut self, message: String)
        ensures
            final(self).loaded == old(self).loaded,
            final(self).errors@ == old(self).errors@.push(message),
    {
        self.errors.push(message);
    }

    /// A chosen font's file was read, or could not be.
    pub fn read(&mut self, family: &str, error: Option<String>)
        requires
            old(self).loaded < usize::MAX,
        ensures
            match error {
                Some(e) => final(self).loaded == old(self).loaded && final(self).errors@.len()
                    == old(self).errors@.len() + 1 && final(self).errors@.drop_last()
                    == old(self).errors@ && final(self).errors@.last()@ == complaint(family@, e@),
                None => final(self).loaded == old(self).loaded + 1 && final(self).errors@ == old(
                    self,
                ).errors@,
            },
    {
        match error {
            Some(e) => {
                self.errors.push(complain(family, e.as_str()));
                proof {
                    assert(self.errors@.drop_last() =~= old(self).errors@);
                }
            },
            None => {
                self.loaded = self.loaded + 1;
            },
        }
    }
}

/// The order in which fonts are tried for a letter: the chosen ones, then the built-in ones, then
/// the system's font for Chinese, Japanese and Korean.
pub fn font_stack(custom: &Vec<String>, built_in: &Vec<String>, fallback: Option<String>) -> (r: Vec<
    String,
>)
    ensures
        views(r@) == views(custom@) + views(built_in@) + (match fallback {
            Some(f) => seq![f@],
            None => seq![],
        }),
{
    let mut out: Vec<String> = Vec::new();
    let a: usize = custom.len();
    let mut i: usize = 0;
    while i < a
        invariant
            i <= a,
            a == custom@.len(),
            views(out@) == views(custom@).take(i as int),
        decreases a - i,
    {
        let ghost had = views(out@);
        out.push(custom[i].clone());
        proof {
            assert(views(out@) =~= had.push(custom@[i as int]@));
            assert(views(out@) =~= views(custom@).take(i + 1));
        }
        i = i + 1;
    }
    let b: usize = built_in.len();
    let mut j: usize = 0;
    proof {
        assert(views(out@) =~= views(custom@) + views(built_in@).take(0));
    }
    while j < b
        invariant
            j <= b,
            b == built_in@.len(),
            views(out@) == views(custom@) + views(built_in@).take(j as int),
        decreases b - j,
    {
        let ghost had = views(out@);
        out.push(built_in[j].clone());
        proof {
            assert(views(out@) =~= had.push(built_in@[j as int]@));
            assert(views(out@) =~= views(custom@) + views(built_in@).take(j + 1));
        }
        j = j + 1;
    }
    proof {
        assert(views(built_in@).take(b as int) =~= views(built_in@));
    }
    let ghost had = views(out@);
    match fallback {
        Some(f) => {
            let ghost last = f@;
            out.push(f);
            proof {
                assert(views(out@) =~= had + seq![last]);
            }
        },
        None => {
            proof {
                assert(had + Seq::<Seq<char>>::empty() =~= had);
            }
        },
    }
    out
}

// ── What is promised of it all ───────────────────────────────────────────────

/// A file's extension is what follows its last full stop; a name without one, or whose only one comes
/// first, has none. Only the four endings of font files, in whatever case, make a font file.
pub proof fn a_name_ends_with_its_extension(stem: Seq<char>, end: Seq<char>)
    requires
        !end.contains('.'),
    ensures
        stem.len() > 0 ==> extension(stem.push('.') + end) == Some(end),
        extension(seq!['.'] + end) is None,
        extension(end) is None,
        stem.len() > 0 ==> (is_font_name(stem.push('.') + end) <==> ascii_lower_text(end) == "ttf"@
            || ascii_lower_text(end) == "otf"@ || ascii_lower_text(end) == "ttc"@
            || ascii_lower_text(end) == "otc"@),
        !is_font_name(seq!['.'] + end),
        !is_font_name(end),
{
    assert forall|j: int| 0 <= j < end.len() implies end[j] != '.' by {
        assert(end.contains(end[j]));
    }
    last_stop_is_last(end);
    let hidden = seq!['.'] + end;
    last_stop_is_last(hidden);
    assert(hidden[0] == '.');
    assert forall|j: int| 0 < j < hidden.len() implies hidden[j] != '.' by {
        assert(hidden[j] == end[j - 1]);
    }
    let name = stem.push('.') + end;
    last_stop_is_last(name);
    let at = stem.len() as int;
    assert(name[at] == '.');
    assert forall|j: int| at < j < name.len() implies name[j] != '.' by {
        assert(name[j] == end[j - at - 1]);
    }
    assert(last_stop(name) == Some(at));
    assert(name.skip(at + 1) =~= end);
}

/// A directory's entries are taken in one by one and in order: a directory is still to be read, a
/// font file is found, and nothing else counts.
pub proof fn entries_are_taken_in_one_by_one<P>(m: WalkModel<P>, a: Seq<Entry<P>>, e: Entry<P>)
    ensures
        m.seen(Seq::empty()) == m,
        ({
            let before = m.seen(a);
            let after = m.seen(a.push(e));
            &&& e.kind == EntryKind::Directory ==> after.pending == before.pending.push(e.path)
                && after.files == before.files
            &&& e.kind == EntryKind::File && e.name is Some && is_font_name(e.name->0@)
                ==> after.files == before.files.push(e.path) && after.pending == before.pending
            &&& e.kind == EntryKind::Other || e.kind == EntryKind::File && (e.name is None
                || !is_font_name(e.name->0@)) ==> after == before
        }),
{
    assert(a.push(e).drop_last() =~= a);
}

/// Fonts are looked for where each platform keeps them: the system's first, then the user's, where
/// the user's directory is known.
pub proof fn fonts_are_looked_for_where_they_are(
    platform: Platform,
    windows_dir: Option<String>,
    local_data: Option<String>,
    home: Option<String>,
)
    ensures
        ({
            let list = font_directories(platform, windows_dir, local_data, home);
            match platform {
                Platform::Windows => {
                    &&& list.len() == if local_data is Some {
                        2int
                    } else {
                        1int
                    }
                    &&& windows_dir matches Some(d) ==> list[0] == (d@, Some("Fonts"@))
                    &&& windows_dir is None ==> list[0] == ("C:\\Windows"@, Some("Fonts"@))
                    &&& local_data matches Some(d) ==> list[1] == (
                        d@,
                        Some("Microsoft\\Windows\\Fonts"@),
                    )
                },
                Platform::MacOs => {
                    &&& list.len() == if home is Some {
                        3int
                    } else {
                        2int
                    }
                    &&& list[0] == ("/System/Library/Fonts"@, None::<Seq<char>>)
                    &&& list[1] == ("/Library/Fonts"@, None::<Seq<char>>)
                    &&& home matches Some(h) ==> list[2] == (h@, Some("Library/Fonts"@))
                },
                Platform::Linux { wayland, hyprland } => {
                    &&& list.len() == if home is Some {
                        4int
                    } else {
                        2int
                    }
                    &&& list[0] == ("/usr/share/fonts"@, None::<Seq<char>>)
                    &&& list[1] == ("/usr/local/share/fonts"@, None::<Seq<char>>)
                    &&& home matches Some(h) ==> list[2] == (h@, Some(".local/share/fonts"@))
                        && list[3] == (h@, Some(".fonts"@))
                },
                Platform::Other(_) => list.len() == 0,
            }
        }),
{
}

/// A font for Chinese, Japanese and Korean is sought among those the platform comes with, the
/// preferred one first.
pub proof fn the_preferred_font_is_sought_first(platform: Platform)
    ensures
        ({
            let list = cjk_candidates(platform);
            match platform {
                Platform::Windows => list == seq![
                    "Noto Sans SC (TrueType).otf"@,
                    "msyh.ttc"@,
                    "simhei.ttf"@,
                ],
                Platform::MacOs => list == seq![
                    "/System/Library/Fonts/PingFang.ttc"@,
                    "/System/Library/Fonts/STHeiti Light.ttc"@,
                    "/Library/Fonts/Arial Unicode.ttf"@,
                ],
                Platform::Linux { wayland, hyprland } => list == seq![
                    "/usr/share/fonts/opentype/noto/NotoSansCJK-Regular.ttc"@,
                    "/usr/share/fonts/truetype/noto/NotoSansCJK-Regular.ttc"@,
                    "/usr/share/fonts/opentype/noto/NotoSansCJKsc-Regular.otf"@,
                    "/usr/share/fonts/truetype/wqy/wqy-microhei.ttc"@,
                ],
                Platform::Other(_) => list.len() == 0,
            }
        }),
{
}

/// A style is regular by four names; one that only speaks of it comes next, and all others last.
pub proof fn regular_styles_come_first(style: Seq<char>)
    ensures
        ({
            let s = lowercase(trim(style));
            let regular = s == "regular"@ || s == "normal"@ || s == "book"@ || s == "roman"@;
            let related = has(s, "regular"@) || has(s, "normal"@);
            &&& style_rank(style) == 0 <==> regular
            &&& style_rank(style) == 1 <==> !regular && related
            &&& style_rank(style) == 2 <==> !regular && !related
        }),
{
}

/// A face goes by its typographic names where it has them, by its plain ones else; a blank family
/// is none.
pub proof fn faces_go_by_their_typographic_names(f: Face)
    ensures
        f.0 matches Some(n) ==> (trim(n).len() > 0 ==> family_of(f) == Some(n)),
        f.0 matches Some(n) ==> (trim(n).len() == 0 ==> family_of(f) is None),
        f.0 is None && f.1 is None ==> family_of(f) is None,
        f.0 is None && f.1 is Some && trim(f.1->0).len() > 0 ==> family_of(f) == f.1,
        f.0 is None && f.1 is Some && trim(f.1->0).len() == 0 ==> family_of(f) is None,
        f.2 matches Some(n) ==> style_of(f) == n,
        f.2 is None && f.3 is Some ==> style_of(f) == f.3->0,
        f.2 is None && f.3 is None ==> style_of(f).len() == 0,
{
}

/// A face is listed under its family's name in lower case, with its file and its place there, which
/// is the first in a file that holds but one.
pub proof fn faces_are_listed_by_family(f: Face, family: Seq<char>, file: usize)
    ensures
        ({
            let l = listing_of(f, family, file);
            &&& l.key == lowercase(family)
            &&& l.font.0 == family && l.font.1 == file
            &&& f.4 matches Some(i) ==> l.font.2 == i
            &&& f.4 is None ==> l.font.2 == 0
            &&& l.rank == style_rank(style_of(f))
        }),
{
}

/// A family keeps the face it has unless a more regular one comes: then that one takes its place and
/// all else stays. A family that is new is put in one place, and moves no other.
pub proof fn a_face_takes_only_its_own_place(list: Seq<Listing>, e: Listing)
    requires
        is_sorted(list),
    ensures
        forall|i: int|
            0 <= i < list.len() && (#[trigger] list[i]).key == e.key && e.rank < list[i].rank
                ==> settled(list, e) == list.update(i, e),
        forall|i: int|
            0 <= i < list.len() && (#[trigger] list[i]).key == e.key && e.rank >= list[i].rank
                ==> settled(list, e) == list,
        (forall|i: int| 0 <= i < list.len() ==> (#[trigger] list[i]).key != e.key) ==> exists|p: int|
            #![trigger list.take(p)]
            0 <= p <= list.len() && settled(list, e) == list.take(p).push(e) + list.skip(p),
    decreases list.len(),
{
    if list.len() > 0 {
        let n = list.len() - 1;
        let front = list.drop_last();
        let last = list.last();
        assert forall|i: int, j: int| 0 <= i < j < front.len() implies before(
            (#[trigger] front[i]).key,
            (#[trigger] front[j]).key,
        ) by {
            assert(front[i] == list[i] && front[j] == list[j]);
        }
        a_face_takes_only_its_own_place(front, e);
        assert forall|i: int| 0 <= i < list.len() && (#[trigger] list[i]).key == e.key implies
            if e.rank < list[i].rank {
                settled(list, e) == list.update(i, e)
            } else {
                settled(list, e) == list
            } by {
            order_is_strict(e.key, last.key);
            if i < n {
                assert(before(list[i].key, list[n].key));
                assert(front[i] == list[i]);
                if e.rank < list[i].rank {
                    assert(front.update(i, e).push(last) =~= list.update(i, e));
                } else {
                    assert(front.push(last) =~= list);
                }
            } else {
                assert(list.drop_last().push(e) =~= list.update(n, e));
            }
        }
        if forall|i: int| 0 <= i < list.len() ==> (#[trigger] list[i]).key != e.key {
            assert(list[n].key != e.key);
            if before(e.key, last.key) {
                assert forall|i: int| 0 <= i < front.len() implies (#[trigger] front[i]).key
                    != e.key by {
                    assert(front[i] == list[i]);
                }
                let p = choose|p: int|
                    #![trigger front.take(p)]
                    0 <= p <= front.len() && settled(front, e) == front.take(p).push(e)
                        + front.skip(p);
                assert(front.take(p) =~= list.take(p));
                assert(settled(list, e) =~= list.take(p).push(e) + list.skip(p));
            } else {
                let p = list.len() as int;
                assert(settled(list, e) =~= list.take(p).push(e) + list.skip(p));
            }
        }
    } else {
        assert(settled(list, e) =~= list.take(0).push(e) + list.skip(0));
    }
}

/// Faces are taken in one by one and in order: one that names a family is settled, any other changes
/// nothing.
pub proof fn faces_are_taken_in_one_by_one(
    list: Seq<Listing>,
    faces: Seq<Option<Face>>,
    f: Face,
    file: usize,
)
    ensures
        with_faces(list, Seq::empty(), file) == list,
        with_faces(list, faces.push(None), file) == with_faces(list, faces, file),
        family_of(f) is None ==> with_faces(list, faces.push(Some(f)), file) == with_faces(
            list,
            faces,
            file,
        ),
        family_of(f) matches Some(family) ==> with_faces(list, faces.push(Some(f)), file) == settled(
            with_faces(list, faces, file),
            listing_of(f, family, file),
        ),
        names_family(Some(f)) <==> family_of(f) is Some,
        !names_family(None),
{
    assert(faces.push(None).drop_last() =~= faces);
    assert(faces.push(Some(f)).drop_last() =~= faces);
}

/// What a face, a font, a directory and a step hold is read off as it is.
pub proof fn contents_are_read_off(f: FaceNames, s: SystemFont, d: FontDirectory, step: FontStep)
    ensures
        face_view(f).0 == opt_view(f.typographic_family) && face_view(f).1 == opt_view(f.family),
        face_view(f).2 == opt_view(f.typographic_style) && face_view(f).3 == opt_view(f.style),
        face_view(f).4 == f.index,
        font_view(s).0 == s.family@ && font_view(s).1 == s.file && font_view(s).2 == s.face_index,
        directory_view(d).0 == d.base@,
        directory_view(d).1 is None <==> d.below is None,
        d.below matches Some(b) ==> directory_view(d).1 == Some(b@),
        step matches FontStep::Complain(m) ==> step_view(step) == FontStepView::Complain(m@),
        step matches FontStep::Load { name, font, family } ==> step_view(step)
            == (FontStepView::Load { name: name@, font: font as int, family: family@ }),
{
}

/// Lists are read off entry by entry.
pub proof fn lists_are_read_off(
    faces: Seq<Option<FaceNames>>,
    fonts: Seq<SystemFont>,
    directories: Seq<FontDirectory>,
    steps: Seq<FontStep>,
    i: int,
)
    ensures
        face_views(faces).len() == faces.len(),
        0 <= i < faces.len() && faces[i] is None ==> face_views(faces)[i] is None,
        0 <= i < faces.len() && faces[i] is Some ==> face_views(faces)[i] == Some(
            face_view(faces[i]->0),
        ),
        font_views(fonts).len() == fonts.len(),
        0 <= i < fonts.len() ==> font_views(fonts)[i] == font_view(fonts[i]),
        directory_views(directories).len() == directories.len(),
        0 <= i < directories.len() ==> directory_views(directories)[i] == directory_view(
            directories[i],
        ),
        step_views(steps).len() == steps.len(),
        0 <= i < steps.len() ==> step_views(steps)[i] == step_view(steps[i]),
{
}

/// The font that goes by a family's name is the first that does, in whatever ASCII case.
pub proof fn the_first_font_of_a_name_is_found(fonts: Seq<SystemFont>, family: Seq<char>)
    ensures
        match font_named(fonts, family) {
            Some(i) => 0 <= i < fonts.len() && ascii_lower_text(fonts[i].family@)
                == ascii_lower_text(family) && forall|j: int|
                0 <= j < i ==> ascii_lower_text((#[trigger] fonts[j]).family@) != ascii_lower_text(
                    family,
                ),
            None => forall|j: int|
                0 <= j < fonts.len() ==> ascii_lower_text((#[trigger] fonts[j]).family@)
                    != ascii_lower_text(family),
        },
    decreases fonts.len(),
{
    if fonts.len() > 0 {
        let front = fonts.drop_last();
        the_first_font_of_a_name_is_found(front, family);
        assert forall|j: int| 0 <= j < front.len() implies front[j] == #[trigger] fonts[j] by {}
    }
}

/// Chosen families are seen to one by one and in order. A blank one is passed over; one that is
/// installed is registered under a name with the number of its choice; of any other the user is told,
/// by its name.
pub proof fn choices_are_seen_to_in_order(
    selected: Seq<Seq<char>>,
    choice: Seq<char>,
    fonts: Seq<SystemFont>,
)
    ensures
        font_steps(Seq::empty(), fonts).len() == 0,
        ({
            let before = font_steps(selected, fonts);
            let after = font_steps(selected.push(choice), fonts);
            let family = trim(choice);
            &&& family.len() == 0 ==> after == before
            &&& family.len() > 0 ==> after.len() == before.len() + 1 && after.drop_last() == before
            &&& family.len() > 0 && font_named(fonts, family) is None ==> after.last()
                == FontStepView::Complain(family + "：系统中未找到该字体"@)
            &&& family.len() > 0 && font_named(fonts, family) is Some ==> match after.last() {
                FontStepView::Load { name, font, family: named } => name.take(18)
                    == "auto_voice_custom_"@ && number_in(name.skip(18)) == selected.len() && Some(
                    font,
                ) == font_named(fonts, family) && named == family,
                FontStepView::Complain(_) => false,
            }
        }),
{
    let all = selected.push(choice);
    assert(all.drop_last() =~= selected);
    assert(font_steps(all, fonts).drop_last() =~= font_steps(selected, fonts) || trim(choice).len()
        == 0);
    let n = selected.len();
    decimals_read_back(n);
    reveal_strlit("auto_voice_custom_");
    assert(custom_name(n).take(18) =~= "auto_voice_custom_"@);
    assert(custom_name(n).skip(18) =~= decimal(n));
    reveal_strlit("：");
    reveal_strlit("系统中未找到该字体");
    reveal_strlit("：系统中未找到该字体");
    let family = trim(choice);
    assert(complaint(family, NOT_INSTALLED@) =~= family + "：系统中未找到该字体"@);
}

/// A complaint names the family and gives the reason as it is.
pub proof fn complaints_give_the_reason(family: Seq<char>, reason: Seq<char>)
    ensures
        complaint(family, reason).take(family.len() as int) == family,
        complaint(family, reason).len() == family.len() + 1 + reason.len(),
        complaint(family, reason).skip(family.len() as int + 1) == reason,
{
    reveal_strlit("：");
    assert(complaint(family, reason).take(family.len() as int) =~= family);
    assert(complaint(family, reason).skip(family.len() as int + 1) =~= reason);
}

}
