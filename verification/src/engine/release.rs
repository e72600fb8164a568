//! An openHC release: the named artefacts a build produces, from a folder or a
//! `.zip`.
use crate::engine::archive::{open_zip, zip_data, zip_entries, zip_head, zip_len, zip_listing, EntryModel};
use crate::flasher::board::opt_str;
use crate::flasher::image::opt_bytes;
use crate::text::{cat2, eq_fold_str, from_chars, lower, same, strings, tail, tail_of, to_chars, Class};
use crate::textmap::TextMap;
use vstd::prelude::*;
use vstd::string::*;

verus! {

/// Artefact names the flasher knows. Anything else in a folder or zip is
/// ignored.
pub open spec fn known_names() -> Seq<Seq<char>> {
    seq![
        "bzImage"@,
        "rootfs.cpio.gz"@,
        "rootfs.ext2"@,
        "rootfs.ext2.gz"@,
        "boot-init.cpio.gz"@,
        "zImage"@,
        "openhc-ca1-zImage"@,
        "c4-imx6sl-ca1.dtb"@,
        "boot.scr"@,
    ]
}

pub fn known() -> (r: Vec<&'static str>)
    ensures
        r@.map_values(|s: &'static str| s@) == known_names(),
{
    let r: Vec<&'static str> = vec![
        "bzImage",
        "rootfs.cpio.gz",
        "rootfs.ext2",
        "rootfs.ext2.gz",
        "boot-init.cpio.gz",
        "zImage",
        "openhc-ca1-zImage",
        "c4-imx6sl-ca1.dtb",
        "boot.scr",
    ];
    assert(r@.map_values(|s: &'static str| s@) =~= known_names());
    r
}

pub fn is_known(name: &str) -> (r: bool)
    ensures
        r == known_names().contains(name@),
{
    let all = known();
    let ghost names = known_names();
    let mut i: usize = 0;
    while i < all.len()
        invariant
            i <= all@.len(),
            names == known_names(),
            all@.map_values(|s: &'static str| s@) == names,
            forall|k: int| 0 <= k < i ==> #[trigger] names[k] != name@,
        decreases all@.len() - i,
    {
        assert(names[i as int] == all@[i as int]@);
        if same(all[i], name) {
            return true;
        }
        i += 1;
    }
    false
}

/// A loaded release: named artefacts held in memory.
#[derive(Debug)]
pub struct Release {
    pub files: TextMap<Vec<u8>>,
    pub source: String,
}

pub open spec fn files_model(m: TextMap<Vec<u8>>) -> Map<Seq<char>, Seq<u8>> {
    m@.map_values(|v: Vec<u8>| v@)
}

impl View for Release {
    type V = Map<Seq<char>, Seq<u8>>;

    open spec fn view(&self) -> Map<Seq<char>, Seq<u8>> {
        files_model(self.files)
    }
}

/// The artefact of that name.
pub open spec fn artefact(files: Map<Seq<char>, Seq<u8>>, name: Seq<char>) -> Option<Seq<u8>> {
    if files.dom().contains(name) {
        Some(files[name])
    } else {
        None
    }
}

/// What a path to a release leads to.
#[derive(Debug, Clone, Copy, PartialEq, Eq, Structural)]
pub enum Source {
    Folder,
    Zip,
}

pub open spec fn source_of(is_dir: bool, extension: Option<Seq<char>>, shown: Seq<char>) -> Result<
    Source,
    Seq<char>,
> {
    if is_dir {
        Ok(Source::Folder)
    } else if extension is Some && lower(extension->0) == lower("zip"@) {
        Ok(Source::Zip)
    } else {
        Err(shown + " is neither a folder nor a .zip release"@)
    }
}

/// How to read a release, by what its path is.
pub fn source_kind(is_dir: bool, extension: Option<&str>, shown: &str) -> (r: Result<Source, String>)
    ensures
        match source_of(is_dir, opt_str(extension), shown@) {
            Ok(k) => r is Ok && r->Ok_0 == k,
            Err(why) => r is Err && r->Err_0@ == why,
        },
{
    if is_dir {
        return Ok(Source::Folder);
    }
    if let Some(e) = extension {
        let chars = to_chars(e);
        if eq_fold_str(chars.as_slice(), "zip") {
            return Ok(Source::Zip);
        }
    }
    Err(cat2(shown, " is neither a folder nor a .zip release"))
}

/// The files of a folder that are artefacts; where a name comes twice, the last
/// one.
pub open spec fn folder_files(v: Seq<(Seq<char>, Seq<u8>)>) -> Map<Seq<char>, Seq<u8>>
    decreases v.len(),
{
    if v.len() == 0 {
        Map::empty()
    } else if known_names().contains(v.last().0) {
        folder_files(v.drop_last()).insert(v.last().0, v.last().1)
    } else {
        folder_files(v.drop_last())
    }
}

pub open spec fn named_bytes(v: Seq<(String, Vec<u8>)>) -> Seq<(Seq<char>, Seq<u8>)> {
    v.map_values(|p: (String, Vec<u8>)| (p.0@, p.1@))
}

/// The last component of a name, whichever way its slashes lean, so that a
/// release zipped with or without a top folder reads the same.
pub open spec fn base_name(name: Seq<char>) -> Seq<char> {
    tail(name, Class::Two('/', '\\'))
}

/// The artefacts of an archive, or nothing when an entry cannot be opened or an
/// artefact cannot be unpacked.
pub open spec fn zip_files(v: Seq<Option<EntryModel>>) -> Option<Map<Seq<char>, Seq<u8>>>
    decreases v.len(),
{
    if v.len() == 0 {
        Some(Map::empty())
    } else {
        match (zip_files(v.drop_last()), v.last()) {
            (Some(m), Some(e)) => if !e.is_file || !known_names().contains(base_name(e.name)) {
                Some(m)
            } else {
                match e.data {
                    Some(data) => Some(m.insert(base_name(e.name), data)),
                    None => None,
                }
            },
            _ => None,
        }
    }
}

/// Why a zip gave no release.
#[derive(Debug)]
pub enum ZipFault {
    /// The bytes are no archive.
    Open(String),
    /// An entry could not be opened or unpacked.
    Entry(String),
    /// There is no artefact in it.
    Nothing(String),
}

impl ZipFault {
    pub open spec fn text_spec(self) -> Seq<char> {
        match self {
            ZipFault::Open(e) => "read zip: "@ + e@,
            ZipFault::Entry(e) => e@,
            ZipFault::Nothing(s) => s@,
        }
    }

    pub fn text(&self) -> (r: String)
        ensures
            r@ == self.text_spec(),
    {
        match self {
            ZipFault::Open(e) => cat2("read zip: ", e.as_str()),
            ZipFault::Entry(e) => e.clone(),
            ZipFault::Nothing(s) => s.clone(),
        }
    }
}

proof fn lemma_failed_entry(v: Seq<Option<EntryModel>>, i: int)
    requires
        0 < i <= v.len(),
        zip_files(v.take(i)) is None,
    ensures
        zip_files(v) is None,
    decreases v.len() - i,
{
    if i < v.len() {
        assert(v.take(i + 1).drop_last() =~= v.take(i));
        lemma_failed_entry(v, i + 1);
    } else {
        assert(v.take(i) =~= v);
    }
}

impl Release {
    pub open spec fn wf(&self) -> bool {
        self.files.wf()
    }

    /// From the files of a directory: those whose names are known, and there
    /// must be one.
    pub fn from_dir(dir: &str, files: Vec<(String, Vec<u8>)>) -> (r: Result<Release, String>)
        ensures
            match r {
                Ok(rel) => {
                    &&& rel.wf()
                    &&& rel@ == folder_files(named_bytes(files@))
                    &&& exists|k: Seq<char>| rel@.dom().contains(k)
                    &&& rel.source@ == dir@
                },
                Err(why) => {
                    &&& folder_files(named_bytes(files@)) == Map::<Seq<char>, Seq<u8>>::empty()
                    &&& why@ == "no openHC images found in "@ + dir@
                },
            },
    {
        let mut out: TextMap<Vec<u8>> = TextMap::new();
        let ghost all = named_bytes(files@);
        let mut i: usize = 0;
        assert(files_model(out) =~= folder_files(all.take(0)));
        while i < files.len()
            invariant
                i <= files@.len(),
                all == named_bytes(files@),
                out.wf(),
                files_model(out) == folder_files(all.take(i as int)),
            decreases files@.len() - i,
        {
            assert(all.take(i + 1).drop_last() =~= all.take(i as int));
            assert(all.take(i + 1).last() == (files@[i as int].0@, files@[i as int].1@));
            if is_known(files[i].0.as_str()) {
                let ghost was = files_model(out);
                let data: Vec<u8> = vstd::slice::slice_to_vec(files[i].1.as_slice());
                out.insert(files[i].0.clone(), data);
                assert(files_model(out) =~= was.insert(files@[i as int].0@, data@));
            }
            i += 1;
        }
        assert(all.take(all.len() as int) =~= all);
        if out.len() == 0 {
            proof {
                lemma_no_keys(&out);
            }
            return Err(cat2("no openHC images found in ", dir));
        }
        proof {
            crate::textmap::lemma_at(&out, 0);
            assert(files_model(out).dom().contains(out.keys()[0]));
        }
        Ok(Release { files: out, source: String::from_str(dir) })
    }

    /// From the bytes of a zip: the entries whose base names are known, and
    /// there must be one. Where a name comes twice, the last entry wins.
    pub fn from_zip(path: &str, bytes: Vec<u8>) -> (r: Result<Release, ZipFault>)
        ensures
            match zip_listing(bytes@) {
                None => r matches Err(ZipFault::Open(_)),
                Some(v) => match zip_files(v) {
                    None => r matches Err(ZipFault::Entry(_)),
                    Some(m) => if m == Map::<Seq<char>, Seq<u8>>::empty() {
                        r matches Err(ZipFault::Nothing(s)) && s@ == "no openHC images inside "@ + path@
                    } else {
                        r is Ok && r->Ok_0.wf() && r->Ok_0@ == m && r->Ok_0.source@ == path@
                    },
                },
            },
    {
        let mut zip = match open_zip(bytes) {
            Ok(a) => a,
            Err(e) => {
                return Err(ZipFault::Open(e));
            },
        };
        let n: usize = zip_len(&zip);
        let ghost v = zip_entries(zip);
        let mut out: TextMap<Vec<u8>> = TextMap::new();
        let mut i: usize = 0;
        assert(files_model(out) =~= Map::empty());
        assert(zip_files(v.take(0)) == Some(files_model(out)));
        while i < n
            invariant
                i <= n,
                n == v.len(),
                zip_entries(zip) == v,
                zip_listing(bytes@) == Some(v),
                out.wf(),
                zip_files(v.take(i as int)) == Some(files_model(out)),
            decreases n - i,
        {
            assert(v.take(i + 1).drop_last() =~= v.take(i as int));
            assert(v.take(i + 1).last() == v[i as int]);
            let (name, is_file) = match zip_head(&mut zip, i) {
                Ok(h) => h,
                Err(e) => {
                    proof {
                        lemma_failed_entry(v, i + 1);
                    }
                    return Err(ZipFault::Entry(e));
                },
            };
            if is_file {
                let chars = to_chars(name.as_str());
                let base = from_chars(tail_of(chars.as_slice(), &Class::Two('/', '\\')));
                if is_known(base.as_str()) {
                    let data = match zip_data(&mut zip, i) {
                        Ok(d) => d,
                        Err(e) => {
                            proof {
                                lemma_failed_entry(v, i + 1);
                            }
                            return Err(ZipFault::Entry(e));
                        },
                    };
                    let ghost was = files_model(out);
                    let ghost k = base@;
                    out.insert(base, data);
                    assert(files_model(out) =~= was.insert(k, data@));
                }
            }
            i += 1;
        }
        assert(v.take(v.len() as int) =~= v);
        if out.len() == 0 {
            proof {
                lemma_no_keys(&out);
            }
            return Err(ZipFault::Nothing(cat2("no openHC images inside ", path)));
        }
        proof {
            crate::textmap::lemma_at(&out, 0);
            assert(files_model(out).dom().contains(out.keys()[0]));
        }
        Ok(Release { files: out, source: String::from_str(path) })
    }

    pub fn get(&self, name: &str) -> (r: Option<&[u8]>)
        requires
            self.wf(),
        ensures
            opt_bytes(r) == artefact(self@, name@),
    {
        match self.files.get(name) {
            Some(v) => Some(v.as_slice()),
            None => None,
        }
    }

    pub fn has(&self, name: &str) -> (r: bool)
        requires
            self.wf(),
        ensures
            r == self@.dom().contains(name@),
    {
        self.files.contains_key(name)
    }

    /// The names of the artefacts, sorted.
    pub fn names(&self) -> (r: Vec<String>)
        requires
            self.wf(),
        ensures
            strings(r@) == self.files.keys(),
            forall|k: Seq<char>| #[trigger] strings(r@).contains(k) <==> self@.dom().contains(k),
            forall|i: int, j: int|
                0 <= i < j < r@.len() ==> crate::textmap::text_lt(
                    #[trigger] strings(r@)[i],
                    #[trigger] strings(r@)[j],
                ),
    {
        let mut out: Vec<String> = Vec::new();
        let mut i: usize = 0;
        while i < self.files.len()
            invariant
                self.files.wf(),
                i <= self.files.keys().len(),
                strings(out@) == self.files.keys().take(i as int),
            decreases self.files.keys().len() - i,
        {
            let ghost was = out@;
            let name = String::from_str(self.files.key_at(i));
            out.push(name);
            assert(strings(out@) =~= strings(was).push(name@));
            assert(self.files.keys().take(i + 1) =~= self.files.keys().take(i as int).push(
                self.files.keys()[i as int],
            ));
            i += 1;
        }
        assert(strings(out@) =~= self.files.keys());
        out
    }
}

proof fn lemma_no_keys(m: &TextMap<Vec<u8>>)
    requires
        m.wf(),
        m.keys().len() == 0,
    ensures
        files_model(*m) == Map::<Seq<char>, Seq<u8>>::empty(),
{
    assert(files_model(*m) =~= Map::<Seq<char>, Seq<u8>>::empty());
}

} // verus!
