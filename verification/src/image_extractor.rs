//! Images of a document: which archive entries are images, and the record
//! of the images that were taken out.
//!
//! Reading the archive and writing the files is the caller's part. This
//! module decides which entries count and keeps the record.

use vstd::prelude::*;
use crate::cell::is_word;
use crate::scan::{ascii_lowercase, has_prefix, starts_with, to_ascii_lowercase};
use crate::text::{chars_of, copy_range, string_of};

verus! {

/// The folder of an archive that holds the media of a document.
pub open spec fn media_folder() -> Seq<char> {
    "word/media/"@
}

/// The formats of the images that a document may hold.
#[derive(Debug, Clone, Copy, PartialEq, Eq, Structural)]
pub enum ImageFormat {
    Png,
    Jpeg,
    Gif,
    Bmp,
    Tiff,
}

/// The last index before `n` that holds `c`, and -1 where there is none.
pub open spec fn last_index_before(s: Seq<char>, c: char, n: int) -> int
    decreases n,
{
    if n <= 0 {
        -1
    } else if n <= s.len() && s[n - 1] == c {
        n - 1
    } else {
        last_index_before(s, c, n - 1)
    }
}

/// The last part of a path: what follows its last `/`, and the whole path
/// where it holds none.
pub open spec fn file_name_of(path: Seq<char>) -> Seq<char> {
    path.subrange(last_index_before(path, '/', path.len() as int) + 1, path.len() as int)
}

/// The extension of a path: what follows the last `.` of its file name,
/// and nothing where the file name holds no `.` or only one in front.
pub open spec fn extension_of(path: Seq<char>) -> Option<Seq<char>> {
    let name = file_name_of(path);
    let dot = last_index_before(name, '.', name.len() as int);
    if dot <= 0 {
        None
    } else {
        Some(name.subrange(dot + 1, name.len() as int))
    }
}

/// The format that an extension names, in any mix of ASCII cases.
pub open spec fn format_of_extension(ext: Seq<char>) -> Option<ImageFormat> {
    let l = ascii_lowercase(ext);
    if l == "png"@ {
        Some(ImageFormat::Png)
    } else if l == "jpg"@ || l == "jpeg"@ {
        Some(ImageFormat::Jpeg)
    } else if l == "gif"@ {
        Some(ImageFormat::Gif)
    } else if l == "bmp"@ {
        Some(ImageFormat::Bmp)
    } else if l == "tiff"@ || l == "tif"@ {
        Some(ImageFormat::Tiff)
    } else {
        None
    }
}

/// The format of the image that a file name names, by its extension.
pub open spec fn image_format_of(filename: Seq<char>) -> Option<ImageFormat> {
    match extension_of(filename) {
        Some(ext) => format_of_extension(ext),
        None => None,
    }
}

/// The extension under which files of a format are written.
pub open spec fn format_extension(format: ImageFormat) -> Seq<char> {
    match format {
        ImageFormat::Png => "png"@,
        ImageFormat::Jpeg => "jpg"@,
        ImageFormat::Gif => "gif"@,
        ImageFormat::Bmp => "bmp"@,
        ImageFormat::Tiff => "tiff"@,
    }
}

fn last_index(s: &[char], c: char) -> (r: Option<usize>)
    ensures
        match r {
            Some(i) => i == last_index_before(s@, c, s.len() as int) && i < s.len(),
            None => last_index_before(s@, c, s.len() as int) == -1,
        },
{
    let mut n: usize = s.len();
    while n > 0
        invariant
            n <= s.len(),
            last_index_before(s@, c, n as int) == last_index_before(s@, c, s.len() as int),
        decreases n,
    {
        if s[n - 1] == c {
            return Some(n - 1);
        }
        n -= 1;
    }
    None
}

/// The last part of the path `path`.
pub fn file_name_chars(path: &[char]) -> (name: Vec<char>)
    ensures
        name@ == file_name_of(path@),
{
    match last_index(path, '/') {
        Some(i) => copy_range(path, i + 1, path.len()),
        None => copy_range(path, 0, path.len()),
    }
}

fn extension_chars(path: &[char]) -> (r: Option<Vec<char>>)
    ensures
        match r {
            Some(ext) => extension_of(path@) == Some(ext@),
            None => extension_of(path@) is None,
        },
{
    let name = file_name_chars(path);
    match last_index(name.as_slice(), '.') {
        Some(dot) => {
            if dot == 0 {
                None
            } else {
                Some(copy_range(name.as_slice(), dot + 1, name.len()))
            }
        },
        None => None,
    }
}

impl ImageFormat {
    /// The format of the image that `filename` names, by its extension in
    /// any mix of ASCII cases: `png`; `jpg` or `jpeg`; `gif`; `bmp`; `tiff`
    /// or `tif`.
    pub fn from_filename(filename: &str) -> (r: Option<Self>)
        ensures
            r == image_format_of(filename@),
    {
        let cs = chars_of(filename);
        let ext = match extension_chars(cs.as_slice()) {
            Some(e) => e,
            None => {
                return None;
            },
        };
        let l = to_ascii_lowercase(ext.as_slice());
        let l = l.as_slice();
        if is_word(l, "png") {
            Some(ImageFormat::Png)
        } else if is_word(l, "jpg") || is_word(l, "jpeg") {
            Some(ImageFormat::Jpeg)
        } else if is_word(l, "gif") {
            Some(ImageFormat::Gif)
        } else if is_word(l, "bmp") {
            Some(ImageFormat::Bmp)
        } else if is_word(l, "tiff") || is_word(l, "tif") {
            Some(ImageFormat::Tiff)
        } else {
            None
        }
    }

    /// The extension under which files of this format are written.
    pub fn to_extension(&self) -> (ext: &'static str)
        ensures
            ext@ == format_extension(*self),
    {
        match self {
            ImageFormat::Png => "png",
            ImageFormat::Jpeg => "jpg",
            ImageFormat::Gif => "gif",
            ImageFormat::Bmp => "bmp",
            ImageFormat::Tiff => "tiff",
        }
    }
}

/// The name under which an archive entry is taken out: the file name of an
/// entry in the media folder that names an image, and nothing for any
/// other entry.
pub open spec fn media_image_name(entry: Seq<char>) -> Option<Seq<char>> {
    if has_prefix(entry, media_folder()) && image_format_of(entry) is Some {
        Some(file_name_of(entry))
    } else {
        None
    }
}

/// The name under which the archive entry `entry` is taken out, if it is
/// an image of the document.
pub fn media_file_name(entry: &str) -> (r: Option<String>)
    ensures
        crate::model::opt_text(r) == media_image_name(entry@),
{
    let cs = chars_of(entry);
    let folder = chars_of("word/media/");
    if starts_with(cs.as_slice(), folder.as_slice()) && ImageFormat::from_filename(entry).is_some() {
        let name = file_name_chars(cs.as_slice());
        Some(string_of(name.as_slice()))
    } else {
        None
    }
}

// ---------------------------------------------------------------------------
// The record of extracted images
// ---------------------------------------------------------------------------

/// Whether the text `a` comes before the text `b`, character by character
/// from index `i` on: the order of strings.
pub open spec fn text_before_from(a: Seq<char>, b: Seq<char>, i: int) -> bool
    decreases a.len() - i,
{
    if i < 0 || i >= b.len() {
        false
    } else if i >= a.len() {
        true
    } else if a[i] != b[i] {
        (a[i] as u32) < (b[i] as u32)
    } else {
        text_before_from(a, b, i + 1)
    }
}

/// Whether the text `a` comes before the text `b` in the order of strings.
pub open spec fn text_before(a: Seq<char>, b: Seq<char>) -> bool {
    text_before_from(a, b, 0)
}

/// One entry of the record: the id of an image and the path of its file.
pub struct ImageEntry {
    pub id: Seq<char>,
    pub path: Seq<char>,
}

/// The entries with the image `id` at `path`: in place of the entry of
/// that id where there is one, else at its place in the order of the ids.
pub open spec fn with_image(entries: Seq<ImageEntry>, id: Seq<char>, path: Seq<char>) -> Seq<
    ImageEntry,
>
    decreases entries.len(),
{
    if entries.len() == 0 {
        seq![ImageEntry { id, path }]
    } else if entries[0].id == id {
        seq![ImageEntry { id, path }] + entries.drop_first()
    } else if text_before(id, entries[0].id) {
        seq![ImageEntry { id, path }] + entries
    } else {
        seq![entries[0]] + with_image(entries.drop_first(), id, path)
    }
}

/// The path of the first entry with the id `id`.
pub open spec fn path_of(entries: Seq<ImageEntry>, id: Seq<char>) -> Option<Seq<char>>
    decreases entries.len(),
{
    if entries.len() == 0 {
        None
    } else if entries[0].id == id {
        Some(entries[0].path)
    } else {
        path_of(entries.drop_first(), id)
    }
}

/// Whether each id comes before the next.
pub open spec fn ids_ascend(entries: Seq<ImageEntry>) -> bool {
    forall|k: int| 0 <= k < entries.len() - 1 ==> text_before(
        (#[trigger] entries[k]).id,
        entries[k + 1].id,
    )
}

/// Of two different texts one comes before the other.
pub proof fn lemma_text_order_total(a: Seq<char>, b: Seq<char>, i: int)
    requires
        0 <= i <= a.len(),
        i <= b.len(),
        a.subrange(0, i) == b.subrange(0, i),
        a != b,
    ensures
        text_before_from(a, b, i) || text_before_from(b, a, i),
    decreases a.len() - i,
{
    if i >= b.len() {
        if i >= a.len() {
            assert(a =~= a.subrange(0, i));
            assert(b =~= b.subrange(0, i));
            assert(a == b);
        } else {
            assert(text_before_from(b, a, i));
        }
    } else if i >= a.len() {
        assert(text_before_from(a, b, i));
    } else if a[i] != b[i] {
        vstd::utf8::char_u32_cast(a[i], a[i] as u32);
        vstd::utf8::char_u32_cast(b[i], b[i] as u32);
    } else {
        assert(a.subrange(0, i + 1) =~= a.subrange(0, i).push(a[i]));
        assert(b.subrange(0, i + 1) =~= b.subrange(0, i).push(b[i]));
        lemma_text_order_total(a, b, i + 1);
    }
}

/// The image at its place keeps the ids in ascending order.
#[verifier::spinoff_prover]
#[verifier::rlimit(40)]
pub proof fn lemma_with_image_ascends(entries: Seq<ImageEntry>, id: Seq<char>, path: Seq<char>)
    requires
        ids_ascend(entries),
    ensures
        ids_ascend(with_image(entries, id, path)),
        with_image(entries, id, path).len() > 0,
        with_image(entries, id, path)[0].id == id || (entries.len() > 0 && with_image(
            entries,
            id,
            path,
        )[0].id == entries[0].id && text_before(entries[0].id, id)),
    decreases entries.len(),
{
    let out = with_image(entries, id, path);
    if entries.len() == 0 {
    } else if entries[0].id == id {
        assert forall|k: int| 0 <= k < out.len() - 1 implies text_before(
            (#[trigger] out[k]).id,
            out[k + 1].id,
        ) by {
            assert(out[k].id == entries[k].id);
            assert(out[k + 1].id == entries[k + 1].id);
        }
    } else if text_before(id, entries[0].id) {
        assert forall|k: int| 0 <= k < out.len() - 1 implies text_before(
            (#[trigger] out[k]).id,
            out[k + 1].id,
        ) by {
            if k > 0 {
                assert(out[k] == entries[k - 1]);
                assert(out[k + 1] == entries[k]);
            }
        }
    } else {
        let rest = entries.drop_first();
        assert forall|k: int| 0 <= k < rest.len() - 1 implies text_before(
            (#[trigger] rest[k]).id,
            rest[k + 1].id,
        ) by {
            assert(rest[k] == entries[k + 1]);
            assert(rest[k + 1] == entries[k + 2]);
        }
        lemma_with_image_ascends(rest, id, path);
        assert(id.subrange(0, 0) =~= entries[0].id.subrange(0, 0));
        lemma_text_order_total(id, entries[0].id, 0);
        let tail = with_image(rest, id, path);
        assert forall|k: int| 0 <= k < out.len() - 1 implies text_before(
            (#[trigger] out[k]).id,
            out[k + 1].id,
        ) by {
            if k == 0 {
                assert(out[1] == tail[0]);
                if tail[0].id != id {
                    assert(rest[0] == entries[1]);
                }
            } else {
                assert(out[k] == tail[k - 1]);
                assert(out[k + 1] == tail[k]);
            }
        }
    }
}

/// How two texts stand in the order of strings.
#[derive(Debug, Clone, Copy, PartialEq, Eq, Structural)]
pub enum TextOrder {
    Before,
    Same,
    After,
}

/// How `a` stands to `b` in the order of strings.
pub fn order_of(a: &[char], b: &[char]) -> (r: TextOrder)
    ensures
        r == TextOrder::Before <==> text_before(a@, b@),
        r == TextOrder::Same <==> a@ == b@,
{
    let mut i: usize = 0;
    while i < a.len() && i < b.len()
        invariant
            i <= a.len(),
            i <= b.len(),
            forall|k: int| 0 <= k < i ==> a@[k] == b@[k],
            text_before_from(a@, b@, i as int) == text_before(a@, b@),
        decreases a.len() - i,
    {
        if a[i] != b[i] {
            if (a[i] as u32) < (b[i] as u32) {
                return TextOrder::Before;
            } else {
                return TextOrder::After;
            }
        }
        i += 1;
    }
    if i < b.len() {
        TextOrder::Before
    } else if i < a.len() {
        TextOrder::After
    } else {
        assert(a@ =~= b@);
        TextOrder::Same
    }
}

/// The record of the images that were taken out of a document, each under
/// its id, in the order of the ids.
#[derive(Debug)]
pub struct ImageExtractor {
    temp_dir: String,
    extracted_images: Vec<(String, String)>,
}

/// The entries that pairs of strings stand for.
pub open spec fn entries_of(pairs: Seq<(String, String)>) -> Seq<ImageEntry> {
    pairs.map_values(|p: (String, String)| ImageEntry { id: p.0@, path: p.1@ })
}

/// The entries that pairs of borrowed strings stand for.
pub open spec fn entries_of_refs(pairs: Seq<(&String, &String)>) -> Seq<ImageEntry> {
    pairs.map_values(|p: (&String, &String)| ImageEntry { id: p.0@, path: p.1@ })
}

impl ImageExtractor {
    #[verifier::type_invariant]
    spec fn ordered(&self) -> bool {
        ids_ascend(entries_of(self.extracted_images@))
    }

    /// The entries of the record.
    pub closed spec fn entries(&self) -> Seq<ImageEntry> {
        entries_of(self.extracted_images@)
    }

    /// The folder that the files are written to.
    pub closed spec fn folder(&self) -> Seq<char> {
        self.temp_dir@
    }

    /// An empty record for files in the folder `temp_dir`.
    pub fn new(temp_dir: String) -> (e: Self)
        ensures
            e.entries() == Seq::<ImageEntry>::empty(),
            e.folder() == temp_dir@,
    {
        let extracted_images: Vec<(String, String)> = Vec::new();
        assert(entries_of(extracted_images@) =~= Seq::<ImageEntry>::empty());
        ImageExtractor { temp_dir, extracted_images }
    }

    /// The folder that the files are written to.
    pub fn temp_dir(&self) -> (dir: &String)
        ensures
            dir@ == self.folder(),
    {
        &self.temp_dir
    }

    /// Records that the image `rel_id` was written to `path`. An earlier
    /// entry of the same id is replaced.
    #[verifier::spinoff_prover]
    #[verifier::rlimit(40)]
    pub fn record_image(&mut self, rel_id: String, path: String)
        ensures
            final(self).entries() == with_image(old(self).entries(), rel_id@, path@),
            final(self).folder() == old(self).folder(),
    {
        proof {
            use_type_invariant(&*self);
        }
        let ghost all = self.entries();
        let ghost target = with_image(all, rel_id@, path@);
        let ghost entry = ImageEntry { id: rel_id@, path: path@ };
        let id = chars_of(rel_id.as_str());
        let n: usize = self.extracted_images.len();
        let mut next: Vec<(String, String)> = Vec::new();
        let mut i: usize = 0;
        proof {
            assert(all.skip(0) =~= all);
            assert(all.take(0) + target =~= target);
            assert(entries_of(next@) =~= all.take(0));
        }
        // the entries that come before the new one
        let mut found: TextOrder = TextOrder::After;
        while found == TextOrder::After && i < n
            invariant
                i <= n,
                n == self.extracted_images@.len(),
                id@ == rel_id@,
                *self == *old(self),
                all == entries_of(self.extracted_images@),
                target == with_image(all, rel_id@, path@),
                entry == (ImageEntry { id: rel_id@, path: path@ }),
                entries_of(next@) == all.take(i as int),
                found == TextOrder::After ==> target == all.take(i as int) + with_image(
                    all.skip(i as int),
                    rel_id@,
                    path@,
                ),
                found == TextOrder::Same ==> i < n && target == all.take(i as int) + (seq![entry]
                    + all.skip(i + 1)),
                found == TextOrder::Before ==> target == all.take(i as int) + (seq![entry]
                    + all.skip(i as int)),
            decreases
                    n - i + if found == TextOrder::After {
                        1int
                    } else {
                        0int
                    },
        {
            let key = chars_of(self.extracted_images[i].0.as_str());
            let order = order_of(id.as_slice(), key.as_slice());
            proof {
                assert(all.skip(i as int)[0] == all[i as int]);
                assert(all.skip(i as int).drop_first() =~= all.skip(i + 1));
            }
            match order {
                TextOrder::After => {
                    assert(all.take(i + 1) =~= all.take(i as int) + seq![all[i as int]]);
                    assert(target =~= all.take(i + 1) + with_image(
                        all.skip(i + 1),
                        rel_id@,
                        path@,
                    ));
                    let pair = &self.extracted_images[i];
                    next.push((pair.0.clone(), pair.1.clone()));
                    assert(entries_of(next@) =~= all.take(i + 1));
                    i += 1;
                },
                _ => {
                    found = order;
                },
            }
        }
        proof {
            if found == TextOrder::After {
                assert(all.skip(i as int) =~= Seq::empty());
                assert(target =~= all.take(i as int) + (seq![entry] + all.skip(i as int)));
            }
        }
        next.push((rel_id, path));
        assert(entries_of(next@) =~= all.take(i as int) + seq![entry]);
        let mut k: usize = if found == TextOrder::Same {
            i + 1
        } else {
            i
        };
        let ghost rest_from = k as int;
        let ghost head = entries_of(next@);
        assert(target =~= head + all.skip(rest_from));
        assert(head + all.subrange(rest_from, rest_from) =~= head);
        while k < n
            invariant
                0 <= rest_from <= k <= n,
                n == self.extracted_images@.len(),
                n == all.len(),
                *self == *old(self),
                all == entries_of(self.extracted_images@),
                entries_of(next@) == head + all.subrange(rest_from, k as int),
                target == head + all.skip(rest_from),
            decreases n - k,
        {
            let pair = &self.extracted_images[k];
            let ghost before = entries_of(next@);
            next.push((pair.0.clone(), pair.1.clone()));
            assert(entries_of(next@) =~= before.push(all[k as int]));
            assert(all.subrange(rest_from, k + 1) =~= all.subrange(rest_from, k as int).push(
                all[k as int],
            ));
            assert(entries_of(next@) =~= head + all.subrange(rest_from, k + 1));
            k += 1;
        }
        proof {
            assert(all.subrange(rest_from, n as int) =~= all.skip(rest_from));
            assert(entries_of(next@) == target);
            lemma_with_image_ascends(all, rel_id@, path@);
        }
        self.extracted_images = next;
    }

    /// The path of the file of the image `rel_id`, if it is on record.
    pub fn get_image_path(&self, rel_id: &str) -> (r: Option<&String>)
        ensures
            match r {
                Some(p) => path_of(self.entries(), rel_id@) == Some(p@),
                None => path_of(self.entries(), rel_id@) is None,
            },
    {
        let ghost all = self.entries();
        let id = chars_of(rel_id);
        let mut i: usize = 0;
        assert(all.skip(0) =~= all);
        while i < self.extracted_images.len()
            invariant
                i <= self.extracted_images.len(),
                id@ == rel_id@,
                all == entries_of(self.extracted_images@),
                path_of(all.skip(i as int), rel_id@) == path_of(all, rel_id@),
            decreases self.extracted_images.len() - i,
        {
            let key = chars_of(self.extracted_images[i].0.as_str());
            proof {
                assert(all.skip(i as int)[0] == all[i as int]);
                assert(all.skip(i as int).drop_first() =~= all.skip(i + 1));
            }
            if crate::cell::same_chars(id.as_slice(), key.as_slice()) {
                return Some(&self.extracted_images[i].1);
            }
            i += 1;
        }
        assert(all.skip(all.len() as int) =~= Seq::empty());
        None
    }

    /// Every image on record with the path of its file, in the order of
    /// the ids.
    pub fn list_images(&self) -> (out: Vec<(&String, &String)>)
        ensures
            entries_of_refs(out@) == self.entries(),
    {
        let mut out: Vec<(&String, &String)> = Vec::new();
        let mut i: usize = 0;
        while i < self.extracted_images.len()
            invariant
                i <= self.extracted_images.len(),
                out@.len() == i,
                forall|k: int|
                    0 <= k < i ==> (#[trigger] out@[k]).0@ == self.extracted_images@[k].0@
                        && out@[k].1@ == self.extracted_images@[k].1@,
            decreases self.extracted_images.len() - i,
        {
            let pair = &self.extracted_images[i];
            out.push((&pair.0, &pair.1));
            i += 1;
        }
        assert(entries_of_refs(out@) =~= self.entries());
        out
    }

    /// A copy of every image on record with the path of its file, in the
    /// order of the ids.
    pub fn get_extracted_images(&self) -> (out: Vec<(String, String)>)
        ensures
            entries_of(out@) == self.entries(),
    {
        let mut out: Vec<(String, String)> = Vec::new();
        let mut i: usize = 0;
        while i < self.extracted_images.len()
            invariant
                i <= self.extracted_images.len(),
                out@.len() == i,
                forall|k: int|
                    0 <= k < i ==> (#[trigger] out@[k]).0@ == self.extracted_images@[k].0@
                        && out@[k].1@ == self.extracted_images@[k].1@,
            decreases self.extracted_images.len() - i,
        {
            let pair = &self.extracted_images[i];
            out.push((pair.0.clone(), pair.1.clone()));
            i += 1;
        }
        assert(entries_of(out@) =~= self.entries());
        out
    }

    /// A copy of every image on record with the path of its file, sorted
    /// by id.
    pub fn get_extracted_images_sorted(&self) -> (out: Vec<(String, String)>)
        ensures
            entries_of(out@) == self.entries(),
            ids_ascend(entries_of(out@)),
    {
        proof {
            use_type_invariant(self);
        }
        self.get_extracted_images()
    }

    /// Whether `filename` names an image.
    pub fn is_image_file(&self, filename: &str) -> (r: bool)
        ensures
            r == image_format_of(filename@) is Some,
    {
        ImageFormat::from_filename(filename).is_some()
    }
}

} // verus!
