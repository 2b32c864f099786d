use vstd::prelude::*;
use vstd::string::*;
use crate::error::SortError;

verus! {

/// What kind of file a name stands for, judged by its extension alone.
#[derive(Clone, Copy, Debug, PartialEq, Eq, Structural)]
pub enum FileType {
    Image,
    Video,
    Other,
}

/// `c` in lower case where it is one of the letters `A` to `Z`, and `c`
/// itself where not: the table's extensions are spelt with `a` to `z` and
/// digits.
pub open spec fn lower(c: char) -> char {
    if 'A' <= c && c <= 'Z' {
        ((c as u8) + 32) as char
    } else {
        c
    }
}

/// `s` with each of its characters in lower case.
pub open spec fn lower_all(s: Seq<char>) -> Seq<char> {
    s.map_values(|c: char| lower(c))
}

/// What follows the last `.` of `name`. There is none where `name` has no
/// `.`, and none where nothing follows the last one.
pub open spec fn extension_of(name: Seq<char>) -> Option<Seq<char>> {
    match name.index_of_last('.') {
        Some(i) => if i + 1 < name.len() {
            Some(name.subrange(i + 1, name.len() as int))
        } else {
            None
        },
        None => None,
    }
}

/// The lower-case extensions of images.
pub open spec fn is_image_extension(ext: Seq<char>) -> bool {
    ext == "jpg"@ || ext == "jpeg"@ || ext == "png"@ || ext == "webp"@ || ext == "gif"@
}

/// The lower-case extensions of videos.
pub open spec fn is_video_extension(ext: Seq<char>) -> bool {
    ext == "mp4"@ || ext == "mov"@ || ext == "webm"@
}

/// The kind that the table gives to an extension, whatever its case.
pub open spec fn lookup(ext: Seq<char>) -> FileType {
    if is_image_extension(lower_all(ext)) {
        FileType::Image
    } else if is_video_extension(lower_all(ext)) {
        FileType::Video
    } else {
        FileType::Other
    }
}

/// The kind of the file called `name`: that of its extension, and `Other`
/// where it has none.
pub open spec fn classify(name: Seq<char>) -> FileType {
    match extension_of(name) {
        Some(ext) => lookup(ext),
        None => FileType::Other,
    }
}

/// `c` in lower case, for the letters `A` to `Z`.
fn to_lower(c: char) -> (r: char)
    ensures
        r == lower(c),
{
    if 'A' <= c && c <= 'Z' {
        ((c as u8) + 32) as char
    } else {
        c
    }
}

/// The characters of `s`, each in lower case.
fn lowered(s: &str) -> (r: Vec<char>)
    ensures
        r@ == lower_all(s@),
{
    let mut low: Vec<char> = Vec::new();
    for c in it: s.chars()
        invariant
            it.seq() == s@,
            low@ == lower_all(s@.take(it.index())),
    {
        low.push(to_lower(c));
    }
    low
}

/// Whether `v` spells `word`.
fn same(v: &Vec<char>, word: &str) -> (r: bool)
    ensures
        r == (v@ == word@),
{
    if v.len() != word.unicode_len() {
        return false;
    }
    let mut i: usize = 0;
    while i < v.len()
        invariant
            i <= v.len(),
            v.len() == word@.len(),
            forall|j: int| 0 <= j < i ==> v@[j] == word@[j],
        decreases v.len() - i,
    {
        if v[i] != word.get_char(i) {
            return false;
        }
        i = i + 1;
    }
    assert(v@ =~= word@);
    true
}

/// The extension of `name`, or `MalformedName` where it has none.
pub fn extension<'a>(name: &'a str) -> (r: Result<&'a str, SortError>)
    ensures
        match r {
            Ok(ext) => extension_of(name@) == Some(ext@),
            Err(e) => e == SortError::MalformedName && extension_of(name@) is None,
        },
{
    let n: usize = name.unicode_len();
    let mut last: Option<usize> = None;
    let mut i: usize = 0;
    for c in it: name.chars()
        invariant
            it.seq() == name@,
            i == it.index(),
            n == name@.len(),
            match last {
                Some(d) => d < i && name@[d as int] == '.' && forall|j: int|
                    d < j < i ==> name@[j] != '.',
                None => forall|j: int| 0 <= j < i ==> name@[j] != '.',
            },
    {
        if c == '.' {
            last = Some(i);
        }
        i = i + 1;
    }
    proof {
        name@.index_of_last_ensures('.');
    }
    match last {
        Some(d) => {
            if d + 1 < n {
                Ok(name.substring_char(d + 1, n))
            } else {
                Err(SortError::MalformedName)
            }
        },
        None => Err(SortError::MalformedName),
    }
}

impl FileType {
    /// The folder under the home directory that files of this kind go to.
    pub open spec fn folder(self) -> Option<Seq<char>> {
        match self {
            FileType::Image => Some("TestPics"@),
            FileType::Video => Some("TestVids"@),
            FileType::Other => None,
        }
    }

    /// The kind that the table gives to the extension `ext`.
    pub fn from_extension(ext: &str) -> (r: FileType)
        ensures
            r == lookup(ext@),
    {
        let low = lowered(ext);
        if same(&low, "jpg") || same(&low, "jpeg") || same(&low, "png") || same(&low, "webp")
            || same(&low, "gif") {
            FileType::Image
        } else if same(&low, "mp4") || same(&low, "mov") || same(&low, "webm") {
            FileType::Video
        } else {
            FileType::Other
        }
    }

    /// The kind of the file called `name`.
    pub fn file_type(name: &str) -> (r: FileType)
        ensures
            r == classify(name@),
    {
        match extension(name) {
            Ok(ext) => FileType::from_extension(ext),
            Err(_) => FileType::Other,
        }
    }

    /// The name of the folder that files of this kind go to, if they go anywhere.
    pub fn base_dir(self) -> (r: Option<&'static str>)
        ensures
            match r {
                Some(dir) => self.folder() == Some(dir@),
                None => self.folder() is None,
            },
    {
        match self {
            FileType::Image => Some("TestPics"),
            FileType::Video => Some("TestVids"),
            FileType::Other => None,
        }
    }
}

/// A name made of anything, a `.`, and an ending without a `.` has that
/// ending as its extension.
pub proof fn lemma_extension_of_dotted(stem: Seq<char>, ext: Seq<char>)
    requires
        ext.len() > 0,
        !ext.contains('.'),
    ensures
        extension_of(stem + seq!['.'] + ext) == Some(ext),
{
    let name = stem + seq!['.'] + ext;
    name.index_of_last_ensures('.');
    assert(name[stem.len() as int] == '.');
    assert(name.contains('.'));
    let i = name.index_of_last('.').unwrap();
    if i > stem.len() {
        assert(ext[i - stem.len() - 1] == name[i]);
        assert(ext.contains('.'));
    }
    assert(i == stem.len());
    assert(name.subrange(i + 1, name.len() as int) =~= ext);
}

/// A name has an extension just where it is made of anything, a `.`, and
/// an ending that is not empty and holds no `.`. That ending is then its
/// extension.
pub proof fn lemma_extension_splits_name(name: Seq<char>)
    ensures
        match extension_of(name) {
            Some(ext) => {
                &&& 0 < ext.len() < name.len()
                &&& !ext.contains('.')
                &&& name == name.take(name.len() - ext.len() - 1) + seq!['.'] + ext
            },
            None => !name.contains('.') || name.last() == '.',
        },
{
    name.index_of_last_ensures('.');
    match extension_of(name) {
        Some(ext) => {
            let i = name.index_of_last('.').unwrap();
            assert forall|k: int| 0 <= k < ext.len() implies ext[k] != '.' by {
                assert(ext[k] == name[i + 1 + k]);
            }
            assert(name =~= name.take(i) + seq!['.'] + ext);
        },
        None => {},
    }
}

/// A name without a `.`, and a name that ends in one, has no extension and
/// is of kind `Other`.
pub proof fn lemma_malformed_is_other(name: Seq<char>)
    requires
        !name.contains('.') || (name.len() > 0 && name.last() == '.'),
    ensures
        extension_of(name) is None,
        classify(name) == FileType::Other,
{
    name.index_of_last_ensures('.');
}

/// The extensions of the table are not empty and hold no `.` and no `/`,
/// and neither does a word that differs from one of them by case only.
pub proof fn lemma_table_words(ext: Seq<char>)
    requires
        is_image_extension(lower_all(ext)) || is_video_extension(lower_all(ext)),
    ensures
        ext.len() > 0,
        !ext.contains('.'),
        !ext.contains('/'),
{
    reveal_strlit("jpg");
    reveal_strlit("jpeg");
    reveal_strlit("png");
    reveal_strlit("webp");
    reveal_strlit("gif");
    reveal_strlit("mp4");
    reveal_strlit("mov");
    reveal_strlit("webm");
    let low = lower_all(ext);
    assert(low.len() == ext.len());
    assert forall|k: int| 0 <= k < ext.len() implies ext[k] != '.' && ext[k] != '/' by {
        assert(low[k] == lower(ext[k]));
    }
}

/// No extension stands in the table both as an image's and as a video's.
pub proof fn lemma_table_is_unambiguous(ext: Seq<char>)
    ensures
        !(is_image_extension(ext) && is_video_extension(ext)),
{
    reveal_strlit("jpg");
    reveal_strlit("jpeg");
    reveal_strlit("png");
    reveal_strlit("webp");
    reveal_strlit("gif");
    reveal_strlit("mp4");
    reveal_strlit("mov");
    reveal_strlit("webm");
    if is_image_extension(ext) && is_video_extension(ext) {
        assert(ext[0] == 'm' || ext[0] == 'w');
        assert(ext[0] == 'w');
        assert(ext[3] == 'p');
        assert(ext[3] == 'm');
    }
}

/// Every name that ends in `.jpg`, `.jpeg`, `.png`, `.webp` or `.gif`,
/// written in any mix of upper and lower case, is an image.
pub proof fn lemma_image_names(stem: Seq<char>, ext: Seq<char>)
    requires
        is_image_extension(lower_all(ext)),
    ensures
        classify(stem + seq!['.'] + ext) == FileType::Image,
{
    lemma_table_words(ext);
    lemma_extension_of_dotted(stem, ext);
}

/// Every name that ends in `.mp4`, `.mov` or `.webm`, written in any mix of
/// upper and lower case, is a video.
pub proof fn lemma_video_names(stem: Seq<char>, ext: Seq<char>)
    requires
        is_video_extension(lower_all(ext)),
    ensures
        classify(stem + seq!['.'] + ext) == FileType::Video,
{
    lemma_table_words(ext);
    lemma_extension_of_dotted(stem, ext);
    lemma_table_is_unambiguous(lower_all(ext));
}

/// Every name whose extension is none of the table's, in any case, is of
/// kind `Other`.
pub proof fn lemma_other_names(stem: Seq<char>, ext: Seq<char>)
    requires
        ext.len() > 0,
        !ext.contains('.'),
        !is_image_extension(lower_all(ext)),
        !is_video_extension(lower_all(ext)),
    ensures
        classify(stem + seq!['.'] + ext) == FileType::Other,
{
    lemma_extension_of_dotted(stem, ext);
}

/// The directories before a file's name do not change its kind: a path
/// is classified as its last component is.
pub proof fn lemma_directories_do_not_count(dir: Seq<char>, name: Seq<char>)
    requires
        !name.contains('/'),
    ensures
        classify(dir + seq!['/'] + name) == classify(name),
{
    let path = dir + seq!['/'] + name;
    let shift = dir.len() + 1;
    path.index_of_last_ensures('.');
    name.index_of_last_ensures('.');
    assert forall|k: int| 0 <= k < name.len() implies path[shift + k] == name[k] by {}
    match name.index_of_last('.') {
        Some(i) => {
            assert(path[shift + i] == '.');
            assert(path.contains('.'));
            let j = path.index_of_last('.').unwrap();
            if j > shift + i {
                assert(name[j - shift] == '.');
            }
            assert(j == shift + i);
            assert(path.subrange(j + 1, path.len() as int) =~= name.subrange(
                i + 1,
                name.len() as int,
            ));
        },
        None => {
            match path.index_of_last('.') {
                Some(j) => {
                    if j >= shift {
                        assert(name[j - shift] == '.');
                        assert(name.contains('.'));
                    }
                    assert(j < dir.len());
                    if j + 1 < path.len() {
                        let ext = path.subrange(j + 1, path.len() as int);
                        assert(ext[dir.len() - j - 1] == '/');
                        assert(ext.contains('/'));
                        if is_image_extension(lower_all(ext)) || is_video_extension(
                            lower_all(ext),
                        ) {
                            lemma_table_words(ext);
                        }
                    }
                },
                None => {},
            }
        },
    }
}

} // verus!
