//! # Helper to handle `Release` files
//!
//! The files that a `Release` file lists, with their sizes and SHA256 hashes.

use vstd::prelude::*;
use vstd::hash_map::StringHashMap;

use crate::architectures::Architecture;
use crate::archive::{Codename, Component, Suite};
use crate::strings::{lines, parse_u64, parse_u64_str, split_lines, split_words, views, words};

verus! {

/// The value of a hexadecimal digit, either case.
pub open spec fn hex_value(c: char) -> Option<u8> {
    if '0' <= c && c <= '9' {
        Some((c as int - '0' as int) as u8)
    } else if 'a' <= c && c <= 'f' {
        Some((c as int - 'a' as int + 10) as u8)
    } else if 'A' <= c && c <= 'F' {
        Some((c as int - 'A' as int + 10) as u8)
    } else {
        None
    }
}

/// The bytes that a hexadecimal text encodes: an even number of
/// hexadecimal digits, two per byte, the first the high half.
pub open spec fn hex_decoded(s: Seq<char>) -> Option<Seq<u8>> {
    if s.len() % 2 == 0 && forall|i: int| 0 <= i < s.len() ==> (#[trigger] hex_value(s[i])) is Some {
        Some(Seq::new((s.len() / 2) as nat, |i: int| (hex_value(s[2 * i])->0 * 16 + hex_value(s[2 * i + 1])->0) as u8))
    } else {
        None
    }
}

/// `hex::decode`: the bytes of a hexadecimal text, or `None` for a text of
/// odd length or with a character that is no hexadecimal digit.
#[verifier::external_body]
fn hex_decode(s: &str) -> (r: Option<Vec<u8>>)
    ensures
        match hex_decoded(s@) {
            Some(b) => r matches Some(v) && v@ == b,
            None => r is None,
        },
{
    hex::decode(s).ok()
}

/// A file that a `Release` file lists: its size and its SHA256 hash.
#[derive(Debug, PartialEq, Eq)]
pub struct FileInfo {
    file_size: u64,
    hash: Vec<u8>,
}

impl FileInfo {
    #[verifier::type_invariant]
    closed spec fn well_formed(self) -> bool {
        self.hash@.len() == 32
    }

    /// A file with a size and a SHA256 hash of 32 bytes.
    pub fn new(file_size: u64, hash: Vec<u8>) -> (r: Option<Self>)
        ensures
            hash@.len() == 32 ==> (r matches Some(x) && x.file_size() == file_size && x.hash() == hash@),
            hash@.len() != 32 ==> r is None,
    {
        if hash.len() == 32 {
            Some(FileInfo { file_size, hash })
        } else {
            None
        }
    }

    /// The size.
    pub closed spec fn file_size(self) -> u64 {
        self.file_size
    }

    /// The hash.
    pub closed spec fn hash(self) -> Seq<u8> {
        self.hash@
    }

    /// The size of the file.
    pub fn size(&self) -> (r: u64)
        ensures
            r == self.file_size(),
    {
        self.file_size
    }

    /// The SHA256 hash of the file.
    pub fn sha256(&self) -> (r: &Vec<u8>)
        ensures
            r@ == self.hash(),
            r@.len() == 32,
    {
        proof {
            use_type_invariant(self);
        }
        &self.hash
    }
}

/// Why a list of files cannot be read.
#[derive(Debug, Clone, Copy, PartialEq, Eq, Structural)]
pub enum FilesError {
    /// A line is not `hash size name`
    InvalidLine,
    /// A size is no number
    InvalidSize,
    /// A hash is not 32 bytes in hexadecimal
    InvalidHash,
}

/// What a line `hash size name` of the list gives.
pub open spec fn file_line(l: Seq<char>) -> Result<(Seq<char>, u64, Seq<u8>), FilesError> {
    let ws = words(l, true);
    if ws.len() != 3 {
        Err(FilesError::InvalidLine)
    } else if parse_u64(ws[1]) is None {
        Err(FilesError::InvalidSize)
    } else {
        match hex_decoded(ws[0]) {
            Some(h) => if h.len() == 32 {
                Ok((ws[2], parse_u64(ws[1])->0, h))
            } else {
                Err(FilesError::InvalidHash)
            },
            None => Err(FilesError::InvalidHash),
        }
    }
}

/// What the lines of a list give: the files, or the error of the first
/// line that is not `hash size name`.
pub open spec fn file_lines(ls: Seq<Seq<char>>) -> Result<Seq<(Seq<char>, u64, Seq<u8>)>, FilesError>
    decreases ls.len(),
{
    if ls.len() == 0 {
        Ok(Seq::empty())
    } else {
        match file_lines(ls.drop_last()) {
            Err(e) => Err(e),
            Ok(fs) => match file_line(ls.last()) {
                Err(e) => Err(e),
                Ok(f) => Ok(fs.push(f)),
            },
        }
    }
}

proof fn lemma_file_lines_err(all: Seq<Seq<char>>, k: int)
    requires
        0 <= k <= all.len(),
        file_lines(all.subrange(0, k)) is Err,
    ensures
        file_lines(all) == file_lines(all.subrange(0, k)),
    decreases all.len() - k,
{
    if k < all.len() {
        let p = all.subrange(0, k + 1);
        assert(p.drop_last() =~= all.subrange(0, k));
        lemma_file_lines_err(all, k + 1);
    } else {
        assert(all.subrange(0, k) =~= all);
    }
}

/// The files of a list by name, with their sizes and hashes: where a name
/// comes more than once, its last line counts.
pub open spec fn files_map(fs: Seq<(Seq<char>, u64, Seq<u8>)>) -> Map<Seq<char>, (u64, Seq<u8>)>
    decreases fs.len(),
{
    if fs.len() == 0 {
        Map::empty()
    } else {
        files_map(fs.drop_last()).insert(fs.last().0, (fs.last().1, fs.last().2))
    }
}

/// The sizes and hashes of the files of a map.
pub open spec fn files_view(m: Map<Seq<char>, FileInfo>) -> Map<Seq<char>, (u64, Seq<u8>)> {
    m.map_values(|f: FileInfo| (f.file_size(), f.hash()))
}

/// Reads the files that a `Release` file lists under `SHA256`: one per
/// line, as `hash size name`.
pub fn parse_sha256(s: &str) -> (r: Result<StringHashMap<FileInfo>, FilesError>)
    ensures
        match file_lines(lines(s@)) {
            Ok(fs) => r matches Ok(m) && files_view(m@) == files_map(fs),
            Err(e) => r matches Err(x) && x == e,
        },
{
    let ls = split_lines(s);
    let ghost all = lines(s@);
    let mut out: StringHashMap<FileInfo> = StringHashMap::new();
    let ghost mut fs: Seq<(Seq<char>, u64, Seq<u8>)> = Seq::empty();
    let mut i: usize = 0;
    assert(all.subrange(0, 0) =~= Seq::<Seq<char>>::empty());
    assert(files_view(out@) =~= files_map(fs));
    while i < ls.len()
        invariant
            i <= ls.len(),
            views(ls@) == all,
            all == lines(s@),
            file_lines(all.subrange(0, i as int)) == Ok::<Seq<(Seq<char>, u64, Seq<u8>)>, FilesError>(fs),
            files_view(out@) == files_map(fs),
        decreases ls.len() - i,
    {
        let ghost p = all.subrange(0, i + 1);
        assert(p.drop_last() =~= all.subrange(0, i as int));
        assert(p.last() == ls@[i as int]@);
        let fields = split_words(ls[i].as_str(), true);
        let ghost ws = words(ls@[i as int]@, true);
        assert(views(fields@) == ws);
        if fields.len() != 3 {
            proof {
                lemma_file_lines_err(all, i + 1);
            }
            return Err(FilesError::InvalidLine);
        }
        assert(ws[0] == fields@[0]@ && ws[1] == fields@[1]@ && ws[2] == fields@[2]@);
        let file_size = match parse_u64_str(fields[1].as_str()) {
            Some(n) => n,
            None => {
                proof {
                    lemma_file_lines_err(all, i + 1);
                }
                return Err(FilesError::InvalidSize);
            },
        };
        let hash = match hex_decode(fields[0].as_str()) {
            Some(h) => h,
            None => {
                proof {
                    lemma_file_lines_err(all, i + 1);
                }
                return Err(FilesError::InvalidHash);
            },
        };
        let info = match FileInfo::new(file_size, hash) {
            Some(x) => x,
            None => {
                proof {
                    lemma_file_lines_err(all, i + 1);
                }
                return Err(FilesError::InvalidHash);
            },
        };
        let name = crate::text::string_from(fields[2].as_str());
        let ghost before = out@;
        let ghost entry = (ws[2], file_size, hash@);
        assert(name@ == ws[2]);
        out.insert(name, info);
        proof {
            let fs2 = fs.push(entry);
            assert(fs2.drop_last() =~= fs);
            assert(files_view(out@) =~= files_view(before).insert(entry.0, (entry.1, entry.2)));
            fs = fs2;
        }
        i = i + 1;
    }
    assert(all.subrange(0, ls.len() as int) =~= all);
    Ok(out)
}

/// Representation of a `Release` file
pub struct Release {
    /// Origin of the release
    pub origin: String,
    /// Label of the release
    pub label: String,
    /// Suite of the release
    pub suite: Suite,
    /// Codename of the release
    pub codename: Codename,
    /// Version of the release
    pub version: Option<String>,
    /// Date of the release, in seconds since the Unix epoch
    pub date: i64,
    /// Validity of the release, in seconds since the Unix epoch
    pub valid_until: Option<i64>,
    /// Whether files should be acquired by hash
    pub acquire_by_hash: Option<bool>,
    /// Supported architectures of the release
    pub architectures: Vec<Architecture>,
    /// Components of the release
    pub components: Vec<Component>,
    /// Release description
    pub description: String,
    /// Referenced `Package` files and others from the release, as listed
    /// under `SHA256`, by name
    pub files: StringHashMap<FileInfo>,
}

/// The release lists a file of that path.
pub open spec fn lists_file(files: Map<Seq<char>, FileInfo>, path: Seq<char>) -> bool {
    files.contains_key(path)
}

impl Release {
    /// The release lists a file of that path.
    pub fn lists(&self, path: &str) -> (r: bool)
        ensures
            r == lists_file(self.files@, path@),
    {
        self.files.contains_key(path)
    }

    /// The location of a listed file relative to the directory of the
    /// suite: its path; `None` where the release does not list it.
    pub fn lookup_url(&self, path: &str) -> (r: Option<String>)
        ensures
            lists_file(self.files@, path@) ==> (r matches Some(u) && u@ == path@),
            !lists_file(self.files@, path@) ==> r is None,
    {
        if self.lists(path) {
            Some(crate::text::string_from(path))
        } else {
            None
        }
    }
}

} // verus!
