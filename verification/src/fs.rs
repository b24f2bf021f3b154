//! The file-system facade: a volume opened over a positioned reader, and
//! `load_file`, which resolves an absolute slash-separated path to a file's
//! full contents.

use vstd::prelude::*;

use crate::device::BlockRead;
use crate::device::DiskReader;
use crate::directory::dir_models;
use crate::directory::models_of;
use crate::directory::spec_name;
use crate::directory::DirectoryEntry;
use crate::directory::EntryModel;
use crate::fat::chain_bytes;
use crate::fat::chain_fuel;
use crate::fat::chain_status;
use crate::fat::fat_matches;
use crate::fat::root_dir_bytes;
use crate::fat::root_dir_status;
use crate::fat::sector0;
use crate::fat::volume_open_ok;
use crate::fat::ChainStatus;
use crate::fat::FAT;
use crate::fat::VolumeError;
use crate::text::chars_to_string;
use crate::text::seq_ieq;
use crate::text::str_ieq;

verus! {

/// Why a file-system operation failed.
#[derive(Clone, Copy, Debug, PartialEq, Eq, Structural)]
pub enum FileSystemOperationError {
    /// The path names a directory where a file was expected.
    ReadDirectoryAsFile,
    /// The path does not begin with `/`.
    NonAbsolutePath,
    /// A path component has no match.
    FileNotFound,
    /// A device read failed.
    DeviceFailure,
    /// A cluster chain runs into a bad, free or reserved entry, or never
    /// reaches its end.
    CorruptClusterChain,
}

/// Splits `s` at every `/`, keeping empty pieces: the result always has one
/// piece more than `s` has separators.
pub open spec fn split_rec(s: Seq<char>, acc: Seq<char>) -> Seq<Seq<char>>
    decreases s.len(),
{
    if s.len() == 0 {
        seq![acc]
    } else if s[0] == '/' {
        seq![acc] + split_rec(s.skip(1), Seq::empty())
    } else {
        split_rec(s.skip(1), acc.push(s[0]))
    }
}

/// The components of a path body (everything after the leading slash).
pub open spec fn split_path(s: Seq<char>) -> Seq<Seq<char>> {
    split_rec(s, Seq::empty())
}

/// The views of a list of strings.
pub open spec fn str_views(ss: Seq<String>) -> Seq<Seq<char>> {
    ss.map_values(|s: String| s@)
}

/// The first entry model whose name matches `name`, ASCII-case-insensitively.
pub open spec fn find_entry(ms: Seq<EntryModel>, name: Seq<char>) -> Option<EntryModel>
    decreases ms.len(),
{
    if ms.len() == 0 {
        None
    } else if seq_ieq(ms[0].0, name) {
        Some(ms[0])
    } else {
        find_entry(ms.skip(1), name)
    }
}

/// Resolves `comps` against the directory listing `models` of the volume
/// `f`: each leading component must match a directory, whose cluster chain
/// yields the next listing; the final component must match a file, whose
/// chain, cut to the declared file size, is the result.
pub open spec fn spec_walk(
    c: Seq<u8>,
    f: FAT,
    ss: int,
    models: Seq<EntryModel>,
    comps: Seq<Seq<char>>,
) -> Result<Seq<u8>, FileSystemOperationError>
    decreases comps.len(),
{
    if comps.len() == 0 {
        Err(FileSystemOperationError::FileNotFound)
    } else {
        match find_entry(models, comps[0]) {
            Option::None => Err(FileSystemOperationError::FileNotFound),
            Option::Some(m) => {
                if comps.len() == 1 {
                    if m.1 {
                        Err(FileSystemOperationError::ReadDirectoryAsFile)
                    } else {
                        match chain_status(c, f, ss, m.2, chain_fuel(f)) {
                            ChainStatus::Complete => {
                                let bytes = chain_bytes(c, f, ss, m.2, chain_fuel(f));
                                if m.3 <= bytes.len() {
                                    Ok(bytes.take(m.3 as int))
                                } else {
                                    Ok(bytes)
                                }
                            },
                            ChainStatus::DeviceFault => Err(
                                FileSystemOperationError::DeviceFailure,
                            ),
                            ChainStatus::Corrupt => Err(
                                FileSystemOperationError::CorruptClusterChain,
                            ),
                        }
                    }
                } else {
                    if !m.1 {
                        Err(FileSystemOperationError::FileNotFound)
                    } else {
                        match chain_status(c, f, ss, m.2, chain_fuel(f)) {
                            ChainStatus::Complete => spec_walk(
                                c,
                                f,
                                ss,
                                dir_models(
                                    chain_bytes(c, f, ss, m.2, chain_fuel(f)),
                                    0,
                                    Seq::empty(),
                                ),
                                comps.skip(1),
                            ),
                            ChainStatus::DeviceFault => Err(
                                FileSystemOperationError::DeviceFailure,
                            ),
                            ChainStatus::Corrupt => Err(
                                FileSystemOperationError::CorruptClusterChain,
                            ),
                        }
                    }
                }
            },
        }
    }
}

/// What `load_file` returns on the volume `f` over contents `c` for `path`:
/// a rejection of non-absolute paths, then the walk of the path's components
/// from the root directory listing.
pub open spec fn spec_load(c: Seq<u8>, f: FAT, ss: int, path: Seq<char>) -> Result<
    Seq<u8>,
    FileSystemOperationError,
> {
    if path.len() == 0 || path[0] != '/' {
        Err(FileSystemOperationError::NonAbsolutePath)
    } else {
        match root_dir_status(c, f, ss) {
            ChainStatus::Complete => spec_walk(
                c,
                f,
                ss,
                dir_models(root_dir_bytes(c, f, ss), 0, Seq::empty()),
                split_path(path.skip(1)),
            ),
            ChainStatus::DeviceFault => Err(FileSystemOperationError::DeviceFailure),
            ChainStatus::Corrupt => Err(FileSystemOperationError::CorruptClusterChain),
        }
    }
}

/// Splits the body of `path` (everything after the leading slash) at every
/// `/`.
fn split_components(path: &str) -> (r: Vec<String>)
    requires
        path@.len() >= 1,
    ensures
        str_views(r@) == split_path(path@.skip(1)),
        r@.len() >= 1,
{
    let n = path.unicode_len();
    let mut components: Vec<String> = Vec::new();
    let mut cur: Vec<char> = Vec::new();
    let mut i: usize = 1;
    proof {
        assert(str_views(components@) =~= Seq::<Seq<char>>::empty());
        assert(Seq::<Seq<char>>::empty() + split_rec(path@.skip(1), cur@) =~= split_rec(
            path@.skip(1),
            cur@,
        ));
    }
    while i < n
        invariant
            1 <= i <= n,
            n == path@.len(),
            split_path(path@.skip(1)) == str_views(components@) + split_rec(
                path@.skip(i as int),
                cur@,
            ),
        decreases n - i,
    {
        let ch = path.get_char(i);
        proof {
            assert(path@.skip(i as int).skip(1) =~= path@.skip(i + 1));
            assert(path@.skip(i as int)[0] == path@[i as int]);
        }
        if ch == '/' {
            let ghost views_before = str_views(components@);
            let ghost finished = cur@;
            components.push(chars_to_string(&cur));
            cur = Vec::new();
            proof {
                assert(str_views(components@) =~= views_before.push(finished));
                assert(split_rec(path@.skip(i as int), finished) == seq![finished] + split_rec(
                    path@.skip(i + 1),
                    Seq::empty(),
                ));
                assert(views_before + (seq![finished] + split_rec(path@.skip(i + 1), Seq::empty()))
                    =~= str_views(components@) + split_rec(path@.skip(i + 1), Seq::empty()));
            }
        } else {
            cur.push(ch);
        }
        i = i + 1;
    }
    let ghost views_before = str_views(components@);
    let ghost finished = cur@;
    components.push(chars_to_string(&cur));
    proof {
        assert(path@.skip(n as int) =~= Seq::<char>::empty());
        assert(split_rec(path@.skip(n as int), finished) == seq![finished]);
        assert(str_views(components@) =~= views_before.push(finished));
        assert(views_before + seq![finished] =~= str_views(components@));
    }
    components
}

/// The index of the first entry whose name matches `name`,
/// ASCII-case-insensitively.
fn find_in_entries(entries: &Vec<DirectoryEntry>, name: &String) -> (r: Option<usize>)
    ensures
        r matches Some(k) ==> k < entries@.len() && find_entry(models_of(entries@), name@)
            == Some(models_of(entries@)[k as int]),
        r is None ==> find_entry(models_of(entries@), name@) is None,
{
    let ghost models = models_of(entries@);
    let mut i: usize = 0;
    proof {
        assert(models.skip(0) =~= models);
    }
    while i < entries.len()
        invariant
            0 <= i <= entries@.len(),
            models == models_of(entries@),
            models.len() == entries@.len(),
            find_entry(models, name@) == find_entry(models.skip(i as int), name@),
        decreases entries@.len() - i,
    {
        let entry_name = entries[i].name();
        proof {
            assert(models.skip(i as int)[0] == models[i as int]);
            assert(models[i as int].0 == spec_name(entries@[i as int]));
            assert(models.skip(i as int).skip(1) =~= models.skip(i + 1));
        }
        if str_ieq(entry_name.as_str(), name.as_str()) {
            return Some(i);
        }
        i = i + 1;
    }
    proof {
        assert(models.skip(entries@.len() as int).len() == 0);
    }
    None
}

/// A FAT volume together with the positioned reader it was opened over.
pub struct FileSystem<'disk, R: BlockRead> {
    /// The opened volume.
    pub backing: FAT,
    /// The reader, positioned at the volume's first byte.
    pub reader: DiskReader<'disk, R>,
}

impl<'disk, R: BlockRead> FileSystem<'disk, R> {
    /// The volume and its reader are both well formed.
    pub open spec fn wf(&self) -> bool {
        &&& self.backing.wf()
        &&& self.reader.wf()
    }

    /// Opens the volume that starts at `reader`'s origin and pairs it with
    /// the reader.
    pub fn new_filesystem(reader: DiskReader<'disk, R>) -> (r: Result<
        FileSystem<'disk, R>,
        VolumeError,
    >)
        requires
            reader.wf(),
        ensures
            r matches Ok(fs) ==> {
                &&& fs.wf()
                &&& fs.reader == reader
                &&& volume_open_ok(reader.contents(), reader.sector_size as int)
                &&& fat_matches(
                    fs.backing,
                    sector0(reader.contents(), reader.sector_size as int),
                )
            },
            reader.reliable() ==> (r is Ok <==> volume_open_ok(
                reader.contents(),
                reader.sector_size as int,
            )),
    {
        let backing = match FAT::new(&reader) {
            Ok(ok) => ok,
            Err(err) => {
                return Err(err);
            },
        };
        Ok(FileSystem { backing, reader })
    }

    /// Loads the full contents of the file `path` names: the path must be
    /// absolute with `/` separators; each leading component must match a
    /// directory (case-insensitively), the final component a file, whose
    /// cluster chain is read whole and cut to the declared file size.
    pub fn load_file(&self, path: &str) -> (r: Result<Vec<u8>, FileSystemOperationError>)
        requires
            self.wf(),
        ensures
            r matches Ok(v) ==> spec_load(
                self.reader.contents(),
                self.backing,
                self.reader.sector_size as int,
                path@,
            ) == Ok::<Seq<u8>, FileSystemOperationError>(v@),
            self.reader.reliable() ==> match spec_load(
                self.reader.contents(),
                self.backing,
                self.reader.sector_size as int,
                path@,
            ) {
                Ok(s) => r matches Ok(v) && v@ == s,
                Err(e) => r == Err::<Vec<u8>, FileSystemOperationError>(e),
            },
    {
        let ghost c = self.reader.contents();
        let ghost f = self.backing;
        let ghost ss = self.reader.sector_size as int;
        if path.unicode_len() == 0 || path.get_char(0) != '/' {
            return Err(FileSystemOperationError::NonAbsolutePath);
        }
        let comps = split_components(path);
        let ghost views = split_path(path@.skip(1));
        let mut entries = match self.backing.get_root_directory(&self.reader) {
            Ok(ok) => ok,
            Err(err) => {
                return Err(err);
            },
        };
        let mut idx: usize = 0;
        proof {
            assert(views.skip(0) =~= views);
        }
        while idx < comps.len()
            invariant
                self.wf(),
                c == self.reader.contents(),
                f == self.backing,
                ss == self.reader.sector_size as int,
                path@.len() >= 1 && path@[0] == '/',
                views == split_path(path@.skip(1)),
                str_views(comps@) == views,
                root_dir_status(c, f, ss) == ChainStatus::Complete,
                0 <= idx <= comps@.len(),
                comps@.len() == views.len(),
                spec_load(c, f, ss, path@) == spec_walk(
                    c,
                    f,
                    ss,
                    models_of(entries@),
                    views.skip(idx as int),
                ),
            decreases comps@.len() - idx,
        {
            let is_last = idx == comps.len() - 1;
            let ghost sub = views.skip(idx as int);
            proof {
                assert(sub[0] == views[idx as int]);
                assert(views[idx as int] == comps@[idx as int]@);
                assert(sub.len() == views.len() - idx);
            }
            let found = find_in_entries(&entries, &comps[idx]);
            let k = match found {
                Some(k) => k,
                None => {
                    return Err(FileSystemOperationError::FileNotFound);
                },
            };
            let ghost m = models_of(entries@)[k as int];
            proof {
                assert(m.0 == spec_name(entries@[k as int]));
                assert(m.1 == crate::directory::spec_is_directory(entries@[k as int]));
                assert(m.2 == crate::directory::spec_first_cluster(entries@[k as int].metadata));
                assert(m.3 == entries@[k as int].metadata.file_size);
            }
            if is_last {
                if entries[k].is_directory() {
                    return Err(FileSystemOperationError::ReadDirectoryAsFile);
                }
                let first_cluster = entries[k].metadata.first_cluster();
                let size = entries[k].metadata.file_size;
                let mut bytes = match self.backing.read_cluster_chain(&self.reader, first_cluster) {
                    Ok(ok) => ok,
                    Err(err) => {
                        return Err(err);
                    },
                };
                let ghost whole = bytes@;
                if bytes.len() > size as usize {
                    bytes.truncate(size as usize);
                }
                proof {
                    if size <= whole.len() {
                        assert(bytes@ =~= whole.take(size as int));
                    }
                }
                return Ok(bytes);
            }
            if !entries[k].is_directory() {
                return Err(FileSystemOperationError::FileNotFound);
            }
            let first_cluster = entries[k].metadata.first_cluster();
            let data = match self.backing.read_cluster_chain(&self.reader, first_cluster) {
                Ok(ok) => ok,
                Err(err) => {
                    return Err(err);
                },
            };
            entries = self.backing.read_raw_directory(&data);
            proof {
                assert(views.skip(idx as int).skip(1) =~= views.skip(idx + 1));
            }
            idx = idx + 1;
        }
        proof {
            assert(views.skip(comps@.len() as int).len() == 0);
        }
        Err(FileSystemOperationError::FileNotFound)
    }
}

} // verus!
