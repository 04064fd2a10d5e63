//! Where media files go, and what is found there.

use vstd::prelude::*;
use crate::storage::date::{date_of, date_parts};
use crate::storage::error::StorageError;
use crate::text::{
    chars_of, concat3, decimal, decimal_i64, digits, join_path, joined, owned,
    char_views, padded_digits, same_chars, slice_range, split_words, string_of, words,
    zero_padded, Separator,
};

verus! {

/// Permissions of a media file: the owner's alone.
pub const FILE_MODE: u32 = 0o600;

/// Permissions of a media directory: the owner's alone.
pub const DIR_MODE: u32 = 0o700;

/// The text with each pair of dots, from the left, replaced by an underscore.
pub open spec fn without_dot_pairs(s: Seq<char>) -> Seq<char>
    decreases s.len(),
{
    if s.len() == 0 {
        Seq::empty()
    } else if s.len() >= 2 && s[0] == '.' && s[1] == '.' {
        seq!['_'] + without_dot_pairs(s.skip(2))
    } else {
        seq![s[0]] + without_dot_pairs(s.skip(1))
    }
}

/// An underscore for a path separator or a NUL; any other character as it is.
pub open spec fn plain(c: char) -> char {
    if c == '/' || c == '\\' || c == '\0' {
        '_'
    } else {
        c
    }
}

/// An identifier as it stands in a file name.
pub open spec fn sanitized(s: Seq<char>) -> Seq<char> {
    without_dot_pairs(s).map_values(|c: char| plain(c))
}

/// Sanitize a user-supplied identifier (display_id, source) so it cannot escape the intended
/// directory. Replaces `/`, `\`, `..`, and null bytes with `_`.
pub fn sanitize_id(input: &str) -> (r: String)
    ensures
        r@ == sanitized(input@),
{
    let chars = chars_of(input);
    let mut out: Vec<char> = Vec::new();
    let mut i: usize = 0;
    proof {
        assert(chars@.skip(0) =~= chars@);
        assert(out@ + sanitized(chars@) =~= sanitized(chars@));
    }
    while i < chars.len()
        invariant
            i <= chars.len(),
            sanitized(chars@) == out@ + sanitized(chars@.skip(i as int)),
        decreases chars.len() - i,
    {
        let ghost rest = chars@.skip(i as int);
        let ghost before = out@;
        if chars.len() - i >= 2 && chars[i] == '.' && chars[i + 1] == '.' {
            proof {
                assert(rest.skip(2) =~= chars@.skip(i + 2));
                assert(sanitized(rest) =~= seq!['_'] + sanitized(rest.skip(2)));
            }
            out.push('_');
            i += 2;
            proof {
                assert(before + sanitized(rest) =~= out@ + sanitized(chars@.skip(i as int)));
            }
        } else {
            let c = chars[i];
            let kept = if c == '/' || c == '\\' || c == '\0' {
                '_'
            } else {
                c
            };
            proof {
                assert(rest.skip(1) =~= chars@.skip(i + 1));
                assert(sanitized(rest) =~= seq![plain(c)] + sanitized(rest.skip(1)));
            }
            out.push(kept);
            i += 1;
            proof {
                assert(before + sanitized(rest) =~= out@ + sanitized(chars@.skip(i as int)));
            }
        }
    }
    proof {
        assert(chars@.skip(i as int) =~= Seq::<char>::empty());
        assert(sanitized(Seq::<char>::empty()) =~= Seq::<char>::empty());
        assert(out@ =~= sanitized(chars@));
    }
    string_of(out.as_slice())
}

/// Whether a text can be part of a file name: it holds no separator, no NUL and no pair of
/// dots.
pub open spec fn harmless(s: Seq<char>) -> bool {
    &&& forall|i: int|
        0 <= i < s.len() ==> #[trigger] s[i] != '/' && s[i] != '\\' && s[i] != '\0'
    &&& forall|i: int| 0 <= i < s.len() - 1 ==> !(#[trigger] s[i] == '.' && s[i + 1] == '.')
}

proof fn lemma_no_dot_pairs(s: Seq<char>)
    ensures
        forall|i: int|
            0 <= i < without_dot_pairs(s).len() - 1 ==> !(#[trigger] without_dot_pairs(s)[i] == '.'
                && without_dot_pairs(s)[i + 1] == '.'),
        s.len() > 0 && s[0] != '.' ==> without_dot_pairs(s)[0] == s[0],
        s.len() > 0 ==> without_dot_pairs(s).len() > 0,
        s.len() == 0 ==> without_dot_pairs(s).len() == 0,
    decreases s.len(),
{
    if s.len() > 0 {
        if s.len() >= 2 && s[0] == '.' && s[1] == '.' {
            lemma_no_dot_pairs(s.skip(2));
            let rest = without_dot_pairs(s.skip(2));
            let all = without_dot_pairs(s);
            assert forall|i: int| 0 <= i < all.len() - 1 implies !(#[trigger] all[i] == '.' && all[i
                + 1] == '.') by {
                if i > 0 {
                    assert(all[i] == rest[i - 1]);
                }
            }
        } else {
            lemma_no_dot_pairs(s.skip(1));
            let rest = without_dot_pairs(s.skip(1));
            let all = without_dot_pairs(s);
            assert forall|i: int| 0 <= i < all.len() - 1 implies !(#[trigger] all[i] == '.' && all[i
                + 1] == '.') by {
                if i > 0 {
                    assert(all[i] == rest[i - 1]);
                } else {
                    assert(all[1] == rest[0]);
                    if s.len() >= 2 {
                        assert(s.skip(1)[0] == s[1]);
                    }
                }
            }
        }
    }
}

/// A sanitized identifier can be part of a file name.
pub proof fn a_sanitized_id_is_harmless(s: Seq<char>)
    ensures
        harmless(sanitized(s)),
{
    lemma_no_dot_pairs(s);
    let t = without_dot_pairs(s);
    let u = sanitized(s);
    assert forall|i: int| 0 <= i < u.len() - 1 implies !(#[trigger] u[i] == '.' && u[i + 1]
        == '.') by {
        assert(u[i] == plain(t[i]));
        assert(u[i + 1] == plain(t[i + 1]));
        assert(!(t[i] == '.' && t[i + 1] == '.'));
    }
}

/// An identifier that is harmless already stays as it is.
pub proof fn a_harmless_id_is_kept(s: Seq<char>)
    requires
        harmless(s),
    ensures
        sanitized(s) == s,
    decreases s.len(),
{
    if s.len() > 0 {
        let rest = s.skip(1);
        assert(harmless(rest)) by {
            assert forall|i: int| 0 <= i < rest.len() implies #[trigger] rest[i] != '/' && rest[i]
                != '\\' && rest[i] != '\0' by {
                assert(rest[i] == s[i + 1]);
            }
            assert forall|i: int| 0 <= i < rest.len() - 1 implies !(#[trigger] rest[i] == '.'
                && rest[i + 1] == '.') by {
                assert(rest[i] == s[i + 1]);
                assert(rest[i + 1] == s[i + 2]);
            }
        }
        a_harmless_id_is_kept(rest);
        assert(!(s.len() >= 2 && s[0] == '.' && s[1] == '.'));
        assert(without_dot_pairs(s) == seq![s[0]] + without_dot_pairs(rest));
        assert(sanitized(s) =~= seq![s[0]] + sanitized(rest));
        assert(s =~= seq![s[0]] + rest);
    } else {
        assert(sanitized(s) =~= s);
    }
}

/// The directory of a date: `{year}/{month}/{day}`, the latter two in two digits.
pub open spec fn date_dir(date: (int, int, int)) -> Seq<char> {
    decimal(date.0) + "/"@ + zero_padded(digits(date.1 as nat, 10), 2) + "/"@ + zero_padded(
        digits(date.2 as nat, 10),
        2,
    )
}

/// The file name of a record: `{timestamp}_{id}.{extension}`, with the identifier sanitized.
pub open spec fn media_file(timestamp: int, id: Seq<char>, ext: Seq<char>) -> Seq<char> {
    decimal(timestamp) + "_"@ + sanitized(id) + "."@ + ext
}

fn date_dir_of(timestamp: i64) -> (r: String)
    ensures
        r@ == date_dir(date_of(timestamp as int)),
{
    let (year, month, day) = date_parts(timestamp);
    let start = concat3(
        decimal_i64(year as i64).as_str(),
        "/",
        padded_digits(month as u64, 10, 2).as_str(),
    );
    concat3(start.as_str(), "/", padded_digits(day as u64, 10, 2).as_str())
}

fn media_file_of(timestamp: i64, id: &str, ext: &str) -> (r: String)
    ensures
        r@ == media_file(timestamp as int, id@, ext@),
{
    let stem = concat3(decimal_i64(timestamp).as_str(), "_", sanitize_id(id).as_str());
    concat3(stem.as_str(), ".", ext)
}

/// The directory that a record of this time goes to, under a base directory.
pub open spec fn media_dir(base_dir: Seq<char>, subdir: Seq<char>, timestamp: int) -> Seq<char> {
    joined(joined(base_dir, subdir), date_dir(date_of(timestamp)))
}

/// Build the path of a screenshot, without looking at the file system.
pub fn screenshot_path(base_dir: &str, timestamp: i64, display_id: &str) -> (r: String)
    ensures
        r@ == joined(
            media_dir(base_dir@, "screenshots"@, timestamp as int),
            media_file(timestamp as int, display_id@, "heif"@),
        ),
{
    let dir = join_path(
        join_path(base_dir, "screenshots").as_str(),
        date_dir_of(timestamp).as_str(),
    );
    join_path(dir.as_str(), media_file_of(timestamp, display_id, "heif").as_str())
}

/// Build the path of an audio segment, without looking at the file system.
pub fn audio_path(base_dir: &str, timestamp: i64, source: &str) -> (r: String)
    ensures
        r@ == joined(
            media_dir(base_dir@, "audio"@, timestamp as int),
            media_file(timestamp as int, source@, "opus"@),
        ),
{
    let dir = join_path(join_path(base_dir, "audio").as_str(), date_dir_of(timestamp).as_str());
    join_path(dir.as_str(), media_file_of(timestamp, source, "opus").as_str())
}

/// The parts of a path that say where it leads: single dots do not.
pub open spec fn leading(all: Seq<Seq<char>>) -> Seq<Seq<char>>
    decreases all.len(),
{
    if all.len() == 0 {
        Seq::empty()
    } else if all.last() == seq!['.'] {
        leading(all.drop_last())
    } else {
        leading(all.drop_last()).push(all.last())
    }
}

/// The components of an absolute path.
pub open spec fn components(path: Seq<char>) -> Seq<Seq<char>> {
    leading(words(path, Separator::Slash))
}

/// Whether an absolute path is the directory or lies under it, component by component.
pub open spec fn inside(path: Seq<char>, dir: Seq<char>) -> bool {
    components(dir).is_prefix_of(components(path))
}

fn components_of(path: &str) -> (r: Vec<Vec<char>>)
    ensures
        char_views(r@) == components(path@),
{
    let all = split_words(path, Separator::Slash);
    let mut out: Vec<Vec<char>> = Vec::new();
    let mut i: usize = 0;
    proof {
        assert(char_views(all@).take(0) =~= Seq::<Seq<char>>::empty());
        assert(char_views(out@) =~= Seq::<Seq<char>>::empty());
    }
    while i < all.len()
        invariant
            i <= all.len(),
            char_views(out@) == leading(char_views(all@).take(i as int)),
        decreases all.len() - i,
    {
        let ghost texts = char_views(all@);
        let ghost before = out@;
        proof {
            assert(texts.take(i + 1).drop_last() =~= texts.take(i as int));
            assert(texts.take(i + 1).last() == all@[i as int]@);
        }
        if all[i].len() == 1 && all[i][0] == '.' {
            proof {
                assert(all@[i as int]@ =~= seq!['.']);
            }
        } else {
            let part = slice_range(all[i].as_slice(), 0, all[i].len());
            proof {
                assert(part@ =~= all@[i as int]@);
            }
            out.push(part);
            proof {
                assert(char_views(out@) =~= char_views(before).push(part@));
            }
        }
        i += 1;
    }
    proof {
        assert(char_views(all@).take(all@.len() as int) =~= char_views(all@));
    }
    out
}

/// Whether an absolute path is the directory or lies under it.
pub fn path_inside(path: &str, dir: &str) -> (r: bool)
    ensures
        r == inside(path@, dir@),
{
    let p = components_of(path);
    let d = components_of(dir);
    if d.len() > p.len() {
        return false;
    }
    let mut i: usize = 0;
    while i < d.len()
        invariant
            i <= d.len() <= p.len(),
            char_views(p@) == components(path@),
            char_views(d@) == components(dir@),
            forall|k: int| 0 <= k < i ==> (#[trigger] d@[k])@ == p@[k]@,
        decreases d.len() - i,
    {
        if !same_chars(d[i].as_slice(), p[i].as_slice()) {
            proof {
                assert(components(dir@)[i as int] == d@[i as int]@);
                assert(components(path@)[i as int] == p@[i as int]@);
                if inside(path@, dir@) {
                    assert(components(path@).take(components(dir@).len() as int)[i as int]
                        == components(dir@)[i as int]);
                }
            }
            return false;
        }
        i += 1;
    }
    proof {
        let n = components(dir@).len() as int;
        assert forall|k: int| 0 <= k < n implies components(dir@)[k] == components(path@)[k] by {
            assert(d@[k]@ == p@[k]@);
        }
        assert(components(dir@) =~= components(path@).subrange(0, n));
    }
    true
}

/// Owns the base directory and the policy of file lifecycle operations: files get
/// `FILE_MODE`, directories get `DIR_MODE`.
#[derive(Debug, Clone, PartialEq, Eq)]
pub struct MediaManager {
    pub base_dir: String,
}

/// What the metadata of a file gave.
#[derive(Debug, Clone, PartialEq, Eq)]
pub enum FileMetadata {
    /// The file's size in bytes.
    Size(u64),
    /// There is no such file.
    NotFound,
    /// Another failure, in words.
    Failed(String),
}

/// What to do next about a file that is to be deleted.
#[derive(Debug, Clone, PartialEq, Eq)]
pub enum DeleteStep {
    /// The file is gone already: nothing was freed.
    Gone,
    /// The file cannot be looked at.
    Failed(StorageError),
    /// Remove the file, which frees so many bytes.
    Remove(u64),
}

/// What stands in a directory.
#[derive(Debug)]
pub enum DirEntry {
    /// An entry that could not be read, or that is neither a file nor a directory.
    Skipped,
    /// A link; never followed, so that none leads out of the data directory.
    Symlink,
    /// A file with its path, and its size if that could be read.
    File { path: String, size: Option<u64> },
    /// A directory with what stands in it; one that cannot be read holds nothing.
    Directory(Vec<DirEntry>),
}

/// A media directory as it was found.
#[derive(Debug)]
pub enum MediaDir {
    /// There is none.
    Missing,
    /// A link to a directory with these entries.
    Symlink(Vec<DirEntry>),
    /// A directory with these entries.
    Directory(Vec<DirEntry>),
}

/// The paths of the files in these entries and below them, in order.
pub open spec fn file_paths(entries: Seq<DirEntry>) -> Seq<Seq<char>>
    decreases entries,
{
    if entries.len() == 0 {
        Seq::empty()
    } else {
        file_paths(entries.drop_last()) + entry_paths(entries[entries.len() - 1])
    }
}

/// The paths of the files of an entry.
pub open spec fn entry_paths(entry: DirEntry) -> Seq<Seq<char>>
    decreases entry,
{
    match entry {
        DirEntry::Skipped => Seq::empty(),
        DirEntry::Symlink => Seq::empty(),
        DirEntry::File { path, .. } => seq![path@],
        DirEntry::Directory(entries) => file_paths(entries@),
    }
}

/// The sizes of the files in these entries and below them, together.
pub open spec fn total_size(entries: Seq<DirEntry>) -> int
    decreases entries,
{
    if entries.len() == 0 {
        0
    } else {
        total_size(entries.drop_last()) + entry_size(entries[entries.len() - 1])
    }
}

/// The size of an entry: a file whose size could not be read counts nothing.
pub open spec fn entry_size(entry: DirEntry) -> int
    decreases entry,
{
    match entry {
        DirEntry::Skipped => 0,
        DirEntry::Symlink => 0,
        DirEntry::File { size, .. } => match size {
            Some(n) => n as int,
            None => 0,
        },
        DirEntry::Directory(entries) => total_size(entries@),
    }
}

/// The characters of each string.
pub open spec fn string_views(all: Seq<String>) -> Seq<Seq<char>> {
    Seq::new(all.len(), |i: int| all[i]@)
}

proof fn lemma_sizes_are_positive(entries: Seq<DirEntry>)
    ensures
        total_size(entries) >= 0,
    decreases entries,
{
    if entries.len() > 0 {
        lemma_sizes_are_positive(entries.drop_last());
        reveal_with_fuel(entry_size, 2);
        let last = entries[entries.len() - 1];
        match last {
            DirEntry::Directory(inner) => {
                lemma_sizes_are_positive(inner@);
                assert(entry_size(last) == total_size(inner@));
            },
            _ => {
                assert(entry_size(last) >= 0);
            },
        }
    }
}

proof fn lemma_a_part_is_no_larger(entries: Seq<DirEntry>, i: int)
    requires
        0 <= i <= entries.len(),
    ensures
        total_size(entries.take(i)) <= total_size(entries),
    decreases entries.len() - i,
{
    if i < entries.len() {
        lemma_a_part_is_no_larger(entries, i + 1);
        assert(entries.take(i + 1).drop_last() =~= entries.take(i));
        assert(entries.take(i + 1)[i] == entries[i]);
        let entry = entries[i];
        match entry {
            DirEntry::Directory(inner) => {
                lemma_sizes_are_positive(inner@);
                assert(entry_size(entry) == total_size(inner@));
            },
            _ => {
                assert(entry_size(entry) >= 0);
            },
        }
    } else {
        assert(entries.take(i) =~= entries);
    }
}

/// Collect the paths of the files in these entries and below them.
pub fn walk_files_recursive(entries: &Vec<DirEntry>, files: &mut Vec<String>)
    ensures
        string_views(final(files)@) == string_views(old(files)@) + file_paths(entries@),
    decreases entries@,
{
    let mut i: usize = 0;
    proof {
        assert(entries@.take(0) =~= Seq::<DirEntry>::empty());
        assert(string_views(old(files)@) + Seq::<Seq<char>>::empty() =~= string_views(
            old(files)@,
        ));
    }
    while i < entries.len()
        invariant
            i <= entries.len(),
            string_views(files@) == string_views(old(files)@) + file_paths(
                entries@.take(i as int),
            ),
        decreases entries.len() - i,
    {
        let ghost before = files@;
        proof {
            assert(entries@.take(i + 1).drop_last() =~= entries@.take(i as int));
            assert(entries@.take(i + 1)[i as int] == entries@[i as int]);
        }
        match &entries[i] {
            DirEntry::Skipped => {},
            DirEntry::Symlink => {},
            DirEntry::File { path, .. } => {
                files.push(owned(path.as_str()));
                proof {
                    assert(string_views(files@) =~= string_views(before) + seq![path@]);
                }
            },
            DirEntry::Directory(inner) => {
                proof {
                    assert(decreases_to!(entries@ => entries@[i as int]));
                    assert(decreases_to!(entries@[i as int] => entries@[i as int]->Directory_0));
                    assert(decreases_to!(entries@[i as int]->Directory_0 => inner@));
                }
                walk_files_recursive(inner, files);
            },
        }
        proof {
            assert(string_views(files@) =~= string_views(before) + entry_paths(
                entries@[i as int],
            ));
            assert(string_views(files@) =~= string_views(old(files)@) + file_paths(
                entries@.take(i + 1),
            ));
        }
        i += 1;
    }
    proof {
        assert(entries@.take(entries@.len() as int) =~= entries@);
    }
}

/// Add up the sizes of the files in these entries and below them.
pub fn dir_size_recursive(entries: &Vec<DirEntry>, total: &mut u64)
    requires
        *old(total) + total_size(entries@) <= u64::MAX,
    ensures
        *final(total) == *old(total) + total_size(entries@),
    decreases entries@,
{
    let mut i: usize = 0;
    proof {
        assert(entries@.take(0) =~= Seq::<DirEntry>::empty());
    }
    while i < entries.len()
        invariant
            i <= entries.len(),
            *old(total) + total_size(entries@) <= u64::MAX,
            *total == *old(total) + total_size(entries@.take(i as int)),
        decreases entries.len() - i,
    {
        proof {
            assert(entries@.take(i + 1).drop_last() =~= entries@.take(i as int));
            assert(entries@.take(i + 1)[i as int] == entries@[i as int]);
            lemma_a_part_is_no_larger(entries@, i + 1);
            let entry = entries@[i as int];
            assert(entry_size(entry) == match entry {
                DirEntry::Skipped => 0,
                DirEntry::Symlink => 0,
                DirEntry::File { size, .. } => match size {
                    Some(n) => n as int,
                    None => 0,
                },
                DirEntry::Directory(inner) => total_size(inner@),
            });
            assert(total_size(entries@.take(i + 1)) == total_size(entries@.take(i as int))
                + entry_size(entry));
        }
        match &entries[i] {
            DirEntry::Skipped => {},
            DirEntry::Symlink => {},
            DirEntry::File { size, .. } => match size {
                Some(n) => {
                    *total = *total + *n;
                },
                None => {},
            },
            DirEntry::Directory(inner) => {
                proof {
                    assert(decreases_to!(entries@ => entries@[i as int]));
                    assert(decreases_to!(entries@[i as int] => entries@[i as int]->Directory_0));
                    assert(decreases_to!(entries@[i as int]->Directory_0 => inner@));
                }
                dir_size_recursive(inner, total);
            },
        }
        i += 1;
    }
    proof {
        assert(entries@.take(entries@.len() as int) =~= entries@);
    }
}

impl MediaManager {
    /// A manager of the files under a base directory.
    pub fn new(base_dir: String) -> (r: Self)
        ensures
            r.base_dir == base_dir,
    {
        MediaManager { base_dir }
    }

    /// The base directory.
    pub fn base_dir(&self) -> (r: &str)
        ensures
            r@ == self.base_dir@,
    {
        self.base_dir.as_str()
    }

    /// The media directory of this name.
    pub fn subdir(&self, name: &str) -> (r: String)
        ensures
            r@ == joined(self.base_dir@, name@),
    {
        join_path(self.base_dir.as_str(), name)
    }

    /// What to do about a file that is to be deleted, by what its metadata gave.
    pub fn delete_file(&self, metadata: FileMetadata) -> (r: DeleteStep)
        ensures
            metadata is NotFound ==> r == DeleteStep::Gone,
            metadata matches FileMetadata::Size(size) ==> r == DeleteStep::Remove(size),
            metadata matches FileMetadata::Failed(words) ==> r == DeleteStep::Failed(
                StorageError::Io(words),
            ),
    {
        match metadata {
            FileMetadata::Size(size) => DeleteStep::Remove(size),
            FileMetadata::NotFound => DeleteStep::Gone,
            FileMetadata::Failed(words) => DeleteStep::Failed(StorageError::Io(words)),
        }
    }

    /// The paths of all files in a media directory. None if there is no directory, and none
    /// if it is a link.
    pub fn walk_files(&self, dir: &MediaDir) -> (r: Vec<String>)
        ensures
            string_views(r@) == (match *dir {
                MediaDir::Directory(entries) => file_paths(entries@),
                _ => Seq::empty(),
            }),
    {
        let mut files: Vec<String> = Vec::new();
        proof {
            assert(string_views(files@) =~= Seq::<Seq<char>>::empty());
        }
        match dir {
            MediaDir::Directory(entries) => {
                walk_files_recursive(entries, &mut files);
                proof {
                    assert(Seq::<Seq<char>>::empty() + file_paths(entries@) =~= file_paths(
                        entries@,
                    ));
                }
            },
            _ => {},
        }
        files
    }

    /// The size in bytes of all files in a media directory; nothing if there is none.
    pub fn dir_size(&self, dir: &MediaDir) -> (r: u64)
        requires
            dir.size() <= u64::MAX,
        ensures
            r == dir.size(),
    {
        let mut total: u64 = 0;
        match dir {
            MediaDir::Missing => {},
            MediaDir::Symlink(entries) => dir_size_recursive(entries, &mut total),
            MediaDir::Directory(entries) => dir_size_recursive(entries, &mut total),
        }
        total
    }

    /// The directory that a record of this time goes to.
    pub fn allocate_dir(&self, subdir: &str, timestamp: i64) -> (r: String)
        ensures
            r@ == media_dir(self.base_dir@, subdir@, timestamp as int),
    {
        join_path(self.subdir(subdir).as_str(), date_dir_of(timestamp).as_str())
    }

    /// The path of a new record, given the resolved paths of the base directory and of the
    /// record's directory. Refused if a link has led the latter out of the former.
    pub fn allocate_path(
        &self,
        canonical_base: &str,
        canonical_parent: &str,
        timestamp: i64,
        id: &str,
        ext: &str,
    ) -> (r: Result<String, StorageError>)
        ensures
            r is Ok <==> inside(canonical_parent@, canonical_base@),
            r is Ok ==> r->Ok_0@ == joined(
                canonical_parent@,
                media_file(timestamp as int, id@, ext@),
            ),
            r is Err ==> r->Err_0.is_other("path escaped storage root"@),
    {
        if !path_inside(canonical_parent, canonical_base) {
            return Err(StorageError::Other(owned("path escaped storage root")));
        }
        Ok(join_path(canonical_parent, media_file_of(timestamp, id, ext).as_str()))
    }
}

impl MediaDir {
    /// The size of all files in the directory.
    pub open spec fn size(self) -> int {
        match self {
            MediaDir::Missing => 0,
            MediaDir::Symlink(entries) => total_size(entries@),
            MediaDir::Directory(entries) => total_size(entries@),
        }
    }
}

proof fn lemma_decimal_starts(n: int)
    ensures
        decimal(n).len() > 0,
        forall|i: int| 0 <= i < decimal(n).len() ==> #[trigger] decimal(n)[i] != '/' && decimal(
            n,
        )[i] != '.' && decimal(n)[i] != '\\' && decimal(n)[i] != '\0',
{
    if n < 0 {
        lemma_digits_are_plain((-n) as nat);
    } else {
        lemma_digits_are_plain(n as nat);
    }
}

proof fn lemma_digits_are_plain(n: nat)
    ensures
        digits(n, 10).len() > 0,
        forall|i: int|
            0 <= i < digits(n, 10).len() ==> '0' <= #[trigger] digits(n, 10)[i] <= '9',
    decreases n,
{
    if n >= 10 {
        lemma_digits_are_plain(n / 10);
    }
}

/// The file name of a record holds no separator, whatever its identifier is: the record goes
/// right into its directory.
pub proof fn a_record_stays_in_its_directory(
    parent: Seq<char>,
    timestamp: int,
    id: Seq<char>,
    ext: Seq<char>,
)
    requires
        harmless(ext),
    ensures
        ({
            let file = media_file(timestamp, id, ext);
            &&& file.len() > 0
            &&& forall|i: int| 0 <= i < file.len() ==> #[trigger] file[i] != '/'
            &&& parent.len() > 0 && parent.last() != '/' ==> joined(parent, file) == parent.push(
                '/',
            ) + file
        }),
{
    reveal_strlit("_");
    reveal_strlit(".");
    lemma_decimal_starts(timestamp);
    a_sanitized_id_is_harmless(id);
    let file = media_file(timestamp, id, ext);
    let head = decimal(timestamp);
    let safe = sanitized(id);
    assert forall|i: int| 0 <= i < file.len() implies #[trigger] file[i] != '/' by {
        if i < head.len() {
            assert(file[i] == head[i]);
        } else if i == head.len() {
        } else if i < head.len() + 1 + safe.len() {
            assert(file[i] == safe[i - head.len() - 1]);
        } else if i == head.len() + 1 + safe.len() {
        } else {
            assert(file[i] == ext[i - head.len() - 2 - safe.len()]);
        }
    }
    assert(file[0] == head[0]);
}

/// An identifier is made harmless from left to right: a pair of dots, a separator and a NUL each
/// become an underscore, and every other character stays.
pub proof fn an_id_is_made_harmless_from_the_left(s: Seq<char>)
    ensures
        s.len() == 0 ==> sanitized(s).len() == 0,
        s.len() >= 2 && s[0] == '.' && s[1] == '.' ==> sanitized(s) == seq!['_'] + sanitized(
            s.skip(2),
        ),
        s.len() > 0 && !(s.len() >= 2 && s[0] == '.' && s[1] == '.') ==> sanitized(s) == seq![
            if s[0] == '/' || s[0] == '\\' || s[0] == '\0' {
                '_'
            } else {
                s[0]
            },
        ] + sanitized(s.skip(1)),
{
    if s.len() >= 2 && s[0] == '.' && s[1] == '.' {
        assert(sanitized(s) =~= seq!['_'] + sanitized(s.skip(2)));
    } else if s.len() > 0 {
        assert(sanitized(s) =~= seq![plain(s[0])] + sanitized(s.skip(1)));
    }
}

/// A record goes to the directory of its date, under that of its kind.
pub proof fn a_record_goes_to_the_directory_of_its_date(
    media: MediaManager,
    subdir: &str,
    timestamp: i64,
    date: (i32, u32, u32),
    r: String,
)
    requires
        call_ensures(date_parts, (timestamp,), date),
        call_ensures(MediaManager::allocate_dir, (&media, subdir, timestamp), r),
    ensures
        exists|month: Seq<char>, day: Seq<char>|
            {
                &&& #[trigger] month.len() == 2 && #[trigger] day.len() == 2
                &&& month[0] as int == 48 + date.1 / 10 && month[1] as int == 48 + date.1 % 10
                &&& day[0] as int == 48 + date.2 / 10 && day[1] as int == 48 + date.2 % 10
                &&& r@ == joined(
                    joined(media.base_dir@, subdir@),
                    decimal(date.0 as int) + "/"@ + month + "/"@ + day,
                )
            },
{
    let month = zero_padded(digits(date.1 as nat, 10), 2);
    let day = zero_padded(digits(date.2 as nat, 10), 2);
    lemma_two_digits(date.1 as nat);
    lemma_two_digits(date.2 as nat);
    assert(month.len() == 2 && day.len() == 2);
}

proof fn lemma_two_digits(n: nat)
    requires
        n < 100,
    ensures
        ({
            let two = zero_padded(digits(n, 10), 2);
            &&& two.len() == 2
            &&& two[0] as int == 48 + n / 10
            &&& two[1] as int == 48 + n % 10
        }),
{
    reveal_with_fuel(digits, 3);
    crate::text::digits_stand_by_their_place(n, 10);
    crate::text::digits_stand_by_their_place(n / 10, 10);
    crate::text::padding_only_adds_zeros(digits(n, 10), 2);
    if n < 10 {
        assert(digits(n, 10).len() == 1);
        assert(digits(n, 10).last() == digits(n, 10)[0]);
        assert(n % 10 == n && n / 10 == 0);
    } else {
        assert(digits(n, 10).drop_last() == digits(n / 10, 10));
        assert(digits(n / 10, 10).len() == 1);
        assert(digits(n, 10)[0] == digits(n, 10).drop_last()[0]);
        assert((n / 10) % 10 == n / 10);
    }
}

/// A record is found by its time and what it is of: a screenshot by its display, an audio segment
/// by its source.
pub proof fn a_record_has_the_path_of_its_time(
    media: MediaManager,
    base_dir: &str,
    timestamp: i64,
    id: &str,
    safe: String,
    shots: String,
    segments: String,
    shot: String,
    segment: String,
)
    requires
        media.base_dir@ == base_dir@,
        call_ensures(sanitize_id, (id,), safe),
        call_ensures(MediaManager::allocate_dir, (&media, "screenshots", timestamp), shots),
        call_ensures(MediaManager::allocate_dir, (&media, "audio", timestamp), segments),
        call_ensures(screenshot_path, (base_dir, timestamp, id), shot),
        call_ensures(audio_path, (base_dir, timestamp, id), segment),
    ensures
        shot@ == joined(
            shots@,
            decimal(timestamp as int) + "_"@ + safe@ + "."@ + "heif"@,
        ),
        segment@ == joined(
            segments@,
            decimal(timestamp as int) + "_"@ + safe@ + "."@ + "opus"@,
        ),
{
}

/// A new record's file is named for its time and what it is of, in the directory that was
/// resolved, if that lies under the base directory; if not, it is refused.
pub proof fn a_new_record_is_named_for_its_time(
    media: MediaManager,
    base: &str,
    parent: &str,
    timestamp: i64,
    id: &str,
    ext: &str,
    safe: String,
    within: bool,
    r: Result<String, StorageError>,
)
    requires
        call_ensures(sanitize_id, (id,), safe),
        call_ensures(path_inside, (parent, base), within),
        call_ensures(MediaManager::allocate_path, (&media, base, parent, timestamp, id, ext), r),
    ensures
        r is Ok <==> within,
        r is Ok ==> r->Ok_0@ == joined(
            parent@,
            decimal(timestamp as int) + "_"@ + safe@ + "."@ + ext@,
        ),
{
}

proof fn lemma_leading_join(a: Seq<Seq<char>>, b: Seq<Seq<char>>)
    ensures
        leading(a + b) == leading(a) + leading(b),
    decreases b.len(),
{
    if b.len() == 0 {
        assert(a + b =~= a);
        assert(leading(a) + leading(b) =~= leading(a));
    } else {
        lemma_leading_join(a, b.drop_last());
        assert((a + b).drop_last() =~= a + b.drop_last());
        assert(leading(a + b) =~= leading(a) + leading(b));
    }
}

/// A path's components are what stands between its slashes, without single dots.
pub proof fn slashes_part_the_components(a: Seq<char>, b: Seq<char>)
    ensures
        components(a + seq!['/'] + b) == components(a) + components(b),
        a.len() > 0 && a != seq!['.'] && (forall|i: int|
            0 <= i < a.len() ==> #[trigger] a[i] != '/') ==> components(a) == seq![a],
        components(seq!['.']).len() == 0,
        components(Seq::empty()).len() == 0,
{
    crate::text::separators_part_the_words(a, '/', b, Separator::Slash);
    lemma_leading_join(words(a, Separator::Slash), words(b, Separator::Slash));
    let dot = seq!['.'];
    crate::text::separators_part_the_words(dot, '/', b, Separator::Slash);
    assert(words(dot, Separator::Slash) == seq![dot]);
    assert(seq![dot].drop_last() =~= Seq::<Seq<char>>::empty());
    assert(seq![dot].last() == dot);
    assert(leading(Seq::<Seq<char>>::empty()) =~= Seq::<Seq<char>>::empty());
    assert(leading(seq![dot]) == leading(seq![dot].drop_last()));
    if a.len() > 0 && a != dot && forall|i: int| 0 <= i < a.len() ==> #[trigger] a[i] != '/' {
        assert(words(a, Separator::Slash) == seq![a]);
        assert(seq![a].drop_last() =~= Seq::<Seq<char>>::empty());
        assert(seq![a].last() == a);
        assert(leading(seq![a]) == leading(seq![a].drop_last()).push(a));
        assert(components(a) =~= seq![a]);
    }
}

/// A path lies under a directory exactly if it begins with all components of the directory.
pub proof fn a_path_under_a_directory_begins_with_it(path: &str, dir: &str, r: bool)
    requires
        call_ensures(path_inside, (path, dir), r),
    ensures
        r <==> components(dir@).len() <= components(path@).len() && forall|i: int|
            0 <= i < components(dir@).len() ==> #[trigger] components(dir@)[i] == components(
                path@,
            )[i],
{
    let d = components(dir@);
    let p = components(path@);
    if d.len() <= p.len() && forall|i: int| 0 <= i < d.len() ==> #[trigger] d[i] == p[i] {
        assert(d =~= p.subrange(0, d.len() as int));
    }
    if r {
        assert forall|i: int| 0 <= i < d.len() implies #[trigger] d[i] == p[i] by {
            assert(d == p.subrange(0, d.len() as int));
            assert(p.subrange(0, d.len() as int)[i] == p[i]);
        }
    }
}

proof fn lemma_entries_join(a: Seq<DirEntry>, b: Seq<DirEntry>)
    ensures
        file_paths(a + b) == file_paths(a) + file_paths(b),
        total_size(a + b) == total_size(a) + total_size(b),
    decreases b.len(),
{
    if b.len() == 0 {
        assert(a + b =~= a);
        assert(file_paths(a) + file_paths(b) =~= file_paths(a));
    } else {
        lemma_entries_join(a, b.drop_last());
        assert((a + b).drop_last() =~= a + b.drop_last());
        assert((a + b)[(a + b).len() - 1] == b[b.len() - 1]);
        assert(file_paths(a + b) =~= file_paths(a) + file_paths(b));
    }
}

/// A walk finds every file once, in its place, in a directory and below it, and follows no link;
/// the size is that of the same files, as far as it is known.
pub proof fn a_walk_finds_every_file(a: Seq<DirEntry>, b: Seq<DirEntry>, entry: DirEntry)
    ensures
        file_paths(a + b) == file_paths(a) + file_paths(b),
        total_size(a + b) == total_size(a) + total_size(b),
        file_paths(Seq::empty()).len() == 0,
        total_size(Seq::empty()) == 0,
        entry matches DirEntry::File { path, size } ==> file_paths(seq![entry]) == seq![path@]
            && total_size(seq![entry]) == (if size is Some {
            size->0 as int
        } else {
            0
        }),
        entry matches DirEntry::Directory(inner) ==> file_paths(seq![entry]) == file_paths(inner@)
            && total_size(seq![entry]) == total_size(inner@),
        entry is Symlink || entry is Skipped ==> file_paths(seq![entry]).len() == 0 && total_size(
            seq![entry],
        ) == 0,
{
    lemma_entries_join(a, b);
    let one = seq![entry];
    assert(one.drop_last() =~= Seq::<DirEntry>::empty());
    assert(one[one.len() - 1] == entry);
    assert(file_paths(one) == file_paths(one.drop_last()) + entry_paths(entry));
    assert(file_paths(one.drop_last()) =~= Seq::<Seq<char>>::empty());
    assert(Seq::<Seq<char>>::empty() + entry_paths(entry) =~= entry_paths(entry));
    assert(total_size(one) == total_size(one.drop_last()) + entry_size(entry));
    match entry {
        DirEntry::Directory(inner) => {
            reveal_with_fuel(entry_paths, 2);
            reveal_with_fuel(entry_size, 2);
            assert(entry_paths(entry) == file_paths(inner@));
            assert(entry_size(entry) == total_size(inner@));
        },
        _ => {},
    }
}

/// The files of a media directory are those in it, and none where it is a link or missing; its
/// size counts them also behind a link.
pub proof fn a_media_directory_holds_its_files(
    media: MediaManager,
    dir: MediaDir,
    files: Vec<String>,
    size: u64,
)
    requires
        dir.size() <= u64::MAX,
        call_ensures(MediaManager::walk_files, (&media, &dir), files),
        call_ensures(MediaManager::dir_size, (&media, &dir), size),
    ensures
        dir matches MediaDir::Directory(entries) ==> files@.len() == file_paths(entries@).len()
            && (forall|i: int|
            0 <= i < files@.len() ==> (#[trigger] files@[i])@ == file_paths(entries@)[i]) && size
            == total_size(entries@),
        dir matches MediaDir::Symlink(entries) ==> files@.len() == 0 && size == total_size(
            entries@,
        ),
        dir is Missing ==> files@.len() == 0 && size == 0,
{
    let views = string_views(files@);
    assert(views.len() == files@.len());
    assert forall|i: int| 0 <= i < files@.len() implies (#[trigger] files@[i])@ == views[i] by {}
}

/// A media directory stands under the base directory. A file that is there is removed and frees its
/// size, one that is gone frees nothing, and one that cannot be looked at is an error.
pub proof fn a_deleted_file_frees_its_size(
    media: MediaManager,
    name: &str,
    dir: String,
    base: &str,
    metadata: FileMetadata,
    r: DeleteStep,
)
    requires
        call_ensures(MediaManager::subdir, (&media, name), dir),
        call_ensures(MediaManager::base_dir, (&media,), base),
        call_ensures(MediaManager::delete_file, (&media, metadata), r),
    ensures
        dir@ == joined(media.base_dir@, name@),
        base@ == media.base_dir@,
        metadata matches FileMetadata::Size(size) ==> r == DeleteStep::Remove(size),
        metadata is NotFound ==> r is Gone,
        metadata matches FileMetadata::Failed(words) ==> r == DeleteStep::Failed(
            StorageError::Io(words),
        ),
{
}

/// A walk adds the files of a directory to those that were found, and a count their sizes.
pub proof fn a_walk_adds_to_what_was_found(entries: &Vec<DirEntry>)
    ensures
        forall|files: &mut Vec<String>| #[trigger]
            call_ensures(walk_files_recursive, (entries, files), ()) ==> {
                &&& (*final(files))@.len() == (*files)@.len() + file_paths(entries@).len()
                &&& forall|i: int|
                    0 <= i < (*files)@.len() ==> (#[trigger] (*final(files))@[i])@ == (
                    *files)@[i]@
                &&& forall|i: int|
                    (*files)@.len() <= i < (*final(files))@.len() ==> (#[trigger] (*final(
                        files
                    ))@[i])@ == file_paths(entries@)[i - (*files)@.len()]
            },
        forall|total: &mut u64| #[trigger]
            call_ensures(dir_size_recursive, (entries, total), ()) ==> *final(total) == *total
                + total_size(entries@),
{
    assert forall|files: &mut Vec<String>| #[trigger]
        call_ensures(walk_files_recursive, (entries, files), ()) implies {
        &&& (*final(files))@.len() == (*files)@.len() + file_paths(entries@).len()
        &&& forall|i: int|
            0 <= i < (*files)@.len() ==> (#[trigger] (*final(files))@[i])@ == (*files)@[i]@
        &&& forall|i: int|
            (*files)@.len() <= i < (*final(files))@.len() ==> (#[trigger] (*final(files))@[i])@
                == file_paths(entries@)[i - (*files)@.len()]
    } by {
        let before = string_views((*files)@);
        let after = string_views((*final(files))@);
        assert(after == before + file_paths(entries@));
        assert(after.len() == (*final(files))@.len() && before.len() == (*files)@.len());
        assert forall|i: int| 0 <= i < (*files)@.len() implies (#[trigger] (*final(files))@[i])@
            == (*files)@[i]@ by {
            assert(after[i] == before[i]);
        }
        assert forall|i: int| (*files)@.len() <= i < (*final(files))@.len() implies (
        #[trigger] (*final(files))@[i])@ == file_paths(entries@)[i - (*files)@.len()] by {
            assert(after[i] == file_paths(entries@)[i - before.len()]);
        }
    }
}

/// A media manager keeps its base directory, and a path that leaves it is refused as such.
pub proof fn a_path_outside_is_refused(
    base: String,
    media: MediaManager,
    canonical_base: &str,
    canonical_parent: &str,
    timestamp: i64,
    id: &str,
    ext: &str,
    r: Result<String, StorageError>,
)
    requires
        call_ensures(MediaManager::new, (base,), media),
        call_ensures(
            MediaManager::allocate_path,
            (&media, canonical_base, canonical_parent, timestamp, id, ext),
            r,
        ),
    ensures
        media.base_dir == base,
        r is Ok <==> inside(canonical_parent@, canonical_base@),
        r is Err ==> r->Err_0 is Other && r->Err_0->Other_0@ == "path escaped storage root"@,
{
}

} // verus!
