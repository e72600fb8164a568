//! Picking images and flasher builds out of a published release.
use crate::engine::archive::{open_zip, zip_data, zip_entries, zip_head, zip_len, zip_listing, EntryModel};
use crate::flasher::board::{boards, models, table, BoardModel};
use crate::num::{dec_signed, dec_signed_string};
use crate::text::{
    cat2, cat3, contains, contains_str, ends_with, ends_with_str, eq_fold_str, eq_str, from_chars, lemma_skip_bounds,
    lemma_trim_twice, lemma_trim_within, lemma_unskip_bounds, lossy, lossy_text, lower, same, starts_with,
    starts_with_str, strings, tail, tail_of, to_chars, trim, trim_str, trimmed, white, Class,
};
use vstd::prelude::*;
use vstd::string::*;

verus! {

/// The repository releases are published from.
pub const REPO: &'static str = "The1TrueJoe/openHC";

/// One downloadable file on a release.
#[derive(Debug)]
pub struct Asset {
    pub name: String,
    pub url: String,
    pub size: u64,
}

/// A published release, trimmed to the fields in use.
#[derive(Debug)]
pub struct GhRelease {
    pub tag_name: String,
    pub assets: Vec<Asset>,
}

/// A name of the shape `openhc-<board>-<anything>.zip`.
pub open spec fn bundle_shaped(name: Seq<char>, board: Seq<char>) -> bool {
    starts_with(name, "openhc-"@ + board + "-"@) && ends_with(name, ".zip"@)
}

/// The image bundle of a board: `openhc-<board>-<version>.zip`. Some boards are
/// named like another with a suffix, and the bundle of such a board is not the
/// other one's: the suffix is no version.
pub open spec fn is_image_of(name: Seq<char>, board: Seq<char>) -> bool {
    bundle_shaped(name, board) && forall|i: int|
        0 <= i < table().len() && starts_with((#[trigger] table()[i]).name, board + "-"@) ==> !bundle_shaped(
            name,
            table()[i].name,
        )
}

fn is_shaped(name: &[char], board: &str) -> (r: bool)
    ensures
        r == bundle_shaped(name@, board@),
{
    let prefix = cat3("openhc-", board, "-");
    starts_with_str(name, prefix.as_str()) && ends_with_str(name, ".zip")
}

fn image_of(name: &[char], board: &str) -> (r: bool)
    ensures
        r == is_image_of(name@, board@),
{
    if !is_shaped(name, board) {
        return false;
    }
    let longer = cat2(board, "-");
    let all = boards();
    let mut i: usize = 0;
    while i < all.len()
        invariant
            i <= all@.len(),
            models(all@) == table(),
            longer@ == board@ + "-"@,
            forall|k: int|
                0 <= k < i && starts_with((#[trigger] table()[k]).name, board@ + "-"@) ==> !bundle_shaped(
                    name@,
                    table()[k].name,
                ),
        decreases all@.len() - i,
    {
        assert(table()[i as int] == all@[i as int]@);
        let other = to_chars(all[i].name);
        if starts_with_str(other.as_slice(), longer.as_str()) && is_shaped(name, all[i].name) {
            return false;
        }
        i += 1;
    }
    assert(models(all@).len() == all@.len());
    true
}

/// No file is the image bundle of two boards, so no board is offered another
/// one's image.
pub proof fn law_a_bundle_is_one_boards(name: Seq<char>, a: BoardModel, b: BoardModel)
    requires
        table().contains(a),
        table().contains(b),
        is_image_of(name, a.name),
        is_image_of(name, b.name),
    ensures
        a.name == b.name,
{
    if a.name.len() <= b.name.len() {
        lemma_shorter_name(name, a, b);
    } else {
        lemma_shorter_name(name, b, a);
    }
}

proof fn lemma_shorter_name(name: Seq<char>, a: BoardModel, b: BoardModel)
    requires
        table().contains(b),
        a.name.len() <= b.name.len(),
        is_image_of(name, a.name),
        bundle_shaped(name, b.name),
    ensures
        a.name == b.name,
{
    reveal_strlit("openhc-");
    reveal_strlit("-");
    let pa = "openhc-"@ + a.name + "-"@;
    let pb = "openhc-"@ + b.name + "-"@;
    assert(name.subrange(0, pa.len() as int) == pa);
    assert(name.subrange(0, pb.len() as int) == pb);
    let n = a.name.len() as int;
    assert forall|k: int| 0 <= k < n implies a.name[k] == #[trigger] b.name[k] by {
        assert(pa[7 + k] == name.subrange(0, pa.len() as int)[7 + k]);
        assert(pb[7 + k] == name.subrange(0, pb.len() as int)[7 + k]);
        assert(pa[7 + k] == a.name[k] && pb[7 + k] == b.name[k]);
    }
    if n == b.name.len() {
        assert(a.name =~= b.name);
    } else {
        assert(pa[7 + n] == name.subrange(0, pa.len() as int)[7 + n]);
        assert(pb[7 + n] == name.subrange(0, pb.len() as int)[7 + n]);
        assert(pa[7 + n] == '-' && pb[7 + n] == b.name[n]);
        assert(b.name.subrange(0, n + 1) =~= a.name + "-"@);
        assert(starts_with(b.name, a.name + "-"@));
        let i = choose|i: int| 0 <= i < table().len() && table()[i] == b;
        assert(starts_with(table()[i].name, a.name + "-"@));
    }
}

/// The flasher build for an operating system: `ohc-flasher-<version>-<os>[.exe]`.
pub open spec fn is_flasher_for(name: Seq<char>, os: Seq<char>) -> bool {
    starts_with(name, "ohc-flasher-"@) && contains(name, "-"@ + os)
}

pub ghost struct AssetModel {
    pub name: Seq<char>,
    pub url: Seq<char>,
    pub size: nat,
}

impl View for Asset {
    type V = AssetModel;

    open spec fn view(&self) -> AssetModel {
        AssetModel { name: self.name@, url: self.url@, size: self.size as nat }
    }
}

pub ghost struct ReleaseModel {
    pub tag_name: Seq<char>,
    pub assets: Seq<AssetModel>,
}

/// The models of a list of assets.
pub open spec fn assets(v: Seq<Asset>) -> Seq<AssetModel> {
    v.map_values(|a: Asset| a@)
}

impl View for GhRelease {
    type V = ReleaseModel;

    open spec fn view(&self) -> ReleaseModel {
        ReleaseModel { tag_name: self.tag_name@, assets: assets(self.assets@) }
    }
}

/// The first image bundle of a board.
pub open spec fn first_image(v: Seq<AssetModel>, board: Seq<char>) -> Option<AssetModel>
    decreases v.len(),
{
    if v.len() == 0 {
        None
    } else if is_image_of(v[0].name, board) {
        Some(v[0])
    } else {
        first_image(v.skip(1), board)
    }
}

/// The first flasher build for an operating system.
pub open spec fn first_flasher(v: Seq<AssetModel>, os: Seq<char>) -> Option<AssetModel>
    decreases v.len(),
{
    if v.len() == 0 {
        None
    } else if is_flasher_for(v[0].name, os) {
        Some(v[0])
    } else {
        first_flasher(v.skip(1), os)
    }
}

pub open spec fn opt_asset(o: Option<&Asset>) -> Option<AssetModel> {
    match o {
        Some(a) => Some(a@),
        None => None,
    }
}

impl GhRelease {
    /// The first image bundle for a board.
    pub fn image_asset(&self, board: &str) -> (r: Option<&Asset>)
        ensures
            opt_asset(r) == first_image(self@.assets, board@),
    {
        let ghost all = assets(self.assets@);
        let mut i: usize = 0;
        assert(all.skip(0) =~= all);
        while i < self.assets.len()
            invariant
                i <= self.assets@.len(),
                all == assets(self.assets@),
                first_image(all, board@) == first_image(all.skip(i as int), board@),
            decreases self.assets@.len() - i,
        {
            assert(all.skip(i as int)[0] == self.assets@[i as int]@);
            let name = to_chars(self.assets[i].name.as_str());
            if image_of(name.as_slice(), board) {
                return Some(&self.assets[i]);
            }
            assert(all.skip(i as int).skip(1) =~= all.skip(i + 1));
            i += 1;
        }
        None
    }

    /// The first flasher build for an operating system.
    pub fn flasher_asset(&self, os: &str) -> (r: Option<&Asset>)
        ensures
            opt_asset(r) == first_flasher(self@.assets, os@),
    {
        let tag = cat2("-", os);
        let ghost all = assets(self.assets@);
        let mut i: usize = 0;
        assert(all.skip(0) =~= all);
        while i < self.assets.len()
            invariant
                i <= self.assets@.len(),
                all == assets(self.assets@),
                tag@ == "-"@ + os@,
                first_flasher(all, os@) == first_flasher(all.skip(i as int), os@),
            decreases self.assets@.len() - i,
        {
            assert(all.skip(i as int)[0] == self.assets@[i as int]@);
            let name = to_chars(self.assets[i].name.as_str());
            if starts_with_str(name.as_slice(), "ohc-flasher-") && contains_str(name.as_slice(), tag.as_str()) {
                return Some(&self.assets[i]);
            }
            assert(all.skip(i as int).skip(1) =~= all.skip(i + 1));
            i += 1;
        }
        None
    }
}

pub open spec fn bundle_os(target: Seq<char>) -> Seq<char> {
    if target == "macos"@ {
        "macos"@
    } else if target == "windows"@ {
        "windows"@
    } else {
        "linux"@
    }
}

/// `macos`, `windows` or `linux`, for the operating system a build runs on: the
/// names the published bundles use.
pub fn this_os(target: &str) -> (r: &'static str)
    ensures
        r@ == bundle_os(target@),
{
    if same(target, "macos") {
        "macos"
    } else if same(target, "windows") {
        "windows"
    } else {
        "linux"
    }
}

// -------------------------------------------------------------- asking and fetching

pub open spec fn latest_url() -> Seq<char> {
    "https://api.github.com/repos/"@ + REPO@ + "/releases/latest"@
}

pub open spec fn latest_args() -> Seq<Seq<char>> {
    seq![
        "-fsSL"@,
        "-A"@,
        "ohc-flasher"@,
        "-H"@,
        "Accept: application/vnd.github+json"@,
        latest_url(),
    ]
}

/// The arguments of the `curl` that asks for the latest published release.
pub fn latest_release_args() -> (r: Vec<String>)
    ensures
        strings(r@) == latest_args(),
{
    let r: Vec<String> = vec![
        String::from_str("-fsSL"),
        String::from_str("-A"),
        String::from_str("ohc-flasher"),
        String::from_str("-H"),
        String::from_str("Accept: application/vnd.github+json"),
        cat3("https://api.github.com/repos/", REPO, "/releases/latest"),
    ];
    assert(strings(r@) =~= latest_args());
    r
}

/// An exit status, or -1 for a process that had none.
pub open spec fn status_or(code: Option<i32>) -> int {
    match code {
        Some(c) => c as int,
        None => -1,
    }
}

fn status_text(code: Option<i32>) -> (r: String)
    ensures
        r@ == dec_signed(status_or(code)),
{
    match code {
        Some(c) => dec_signed_string(c as i64),
        None => dec_signed_string(-1),
    }
}

/// What is said when no release could be asked for: usually none has been
/// published yet.
pub fn latest_release_failure(code: Option<i32>) -> (r: String)
    ensures
        r@ == "no published release found for "@ + REPO@ + " (curl exit "@ + dec_signed(status_or(code)) + ")"@,
{
    let mut s = cat3("no published release found for ", REPO, " (curl exit ");
    s.append(status_text(code).as_str());
    s.append(")");
    s
}

pub open spec fn fetch_args(url: Seq<char>, dest: Seq<char>) -> Seq<Seq<char>> {
    seq!["-fL"@, "-A"@, "ohc-flasher"@, "-o"@, dest, url]
}

/// The arguments of the `curl` that downloads one asset. `-f` fails on an HTTP
/// error instead of writing the error page to the file; `-L` follows the
/// redirect.
pub fn download_args(url: &str, dest: &str) -> (r: Vec<String>)
    ensures
        strings(r@) == fetch_args(url@, dest@),
{
    let r: Vec<String> = vec![
        String::from_str("-fL"),
        String::from_str("-A"),
        String::from_str("ohc-flasher"),
        String::from_str("-o"),
        String::from_str(dest),
        String::from_str(url),
    ];
    assert(strings(r@) =~= fetch_args(url@, dest@));
    r
}

pub fn download_failure(code: Option<i32>, stderr: &[u8]) -> (r: String)
    ensures
        r@ == "download failed (curl exit "@ + dec_signed(status_or(code)) + "): "@ + trim(lossy_text(stderr@)),
{
    let mut s = cat3("download failed (curl exit ", status_text(code).as_str(), "): ");
    s.append(trim_str(lossy(stderr).as_str()).as_str());
    s
}

// ------------------------------------------------------------------ the app bundle

/// A macOS build is a zipped `.app`; the others are the bare binary.
pub open spec fn is_bundle(extension: Option<Seq<char>>) -> bool {
    extension is Some && lower(extension->0) == lower("zip"@)
}

/// Whether a downloaded build has to be unpacked first.
pub fn needs_unpacking(extension: Option<&str>) -> (r: bool)
    ensures
        r == is_bundle(crate::flasher::board::opt_str(extension)),
{
    match extension {
        Some(e) => {
            let chars = to_chars(e);
            eq_fold_str(chars.as_slice(), "zip")
        },
        None => false,
    }
}

/// The name of an entry without its folders.
pub open spec fn leaf(name: Seq<char>) -> Seq<char> {
    tail(name, Class::One('/'))
}

/// The program inside an `.app`: a plain file under `Contents/MacOS/` that is
/// none of the resource forks a Mac's zip adds.
pub open spec fn is_app_binary(e: Option<EntryModel>) -> bool {
    &&& e is Some
    &&& e->0.is_file
    &&& contains(e->0.name, "/Contents/MacOS/"@)
    &&& !contains(e->0.name, "__MACOSX"@)
    &&& !starts_with(leaf(e->0.name), "._"@)
}

/// The first entry that is the program.
pub open spec fn app_binary(v: Seq<Option<EntryModel>>, i: int) -> Option<int>
    decreases v.len() - i,
{
    if i < 0 || i >= v.len() {
        None
    } else if is_app_binary(v[i]) {
        Some(i)
    } else {
        app_binary(v, i + 1)
    }
}

/// Why a downloaded bundle gave no program.
#[derive(Debug)]
pub enum BundleFault {
    Open(String),
    Nothing,
    Unpack(String),
}

impl BundleFault {
    pub open spec fn text_spec(self) -> Seq<char> {
        match self {
            BundleFault::Open(e) => "reading the downloaded .app bundle: "@ + e@,
            BundleFault::Nothing => "no Contents/MacOS/ executable inside the downloaded bundle"@,
            BundleFault::Unpack(e) => "extracting the app binary: "@ + e@,
        }
    }

    pub fn text(&self) -> (r: String)
        ensures
            r@ == self.text_spec(),
    {
        match self {
            BundleFault::Open(e) => cat2("reading the downloaded .app bundle: ", e.as_str()),
            BundleFault::Nothing => String::from_str(
                "no Contents/MacOS/ executable inside the downloaded bundle",
            ),
            BundleFault::Unpack(e) => cat2("extracting the app binary: ", e.as_str()),
        }
    }
}

fn is_program(name: &str, is_file: bool) -> (r: bool)
    ensures
        r == (is_file && contains(name@, "/Contents/MacOS/"@) && !contains(name@, "__MACOSX"@)
            && !starts_with(leaf(name@), "._"@)),
{
    let chars = to_chars(name);
    is_file && contains_str(chars.as_slice(), "/Contents/MacOS/") && !contains_str(
        chars.as_slice(),
        "__MACOSX",
    ) && !starts_with_str(tail_of(chars.as_slice(), &Class::One('/')), "._")
}

/// The program out of a zipped `.app`: its file name and its bytes.
pub fn resolve_executable(bytes: Vec<u8>) -> (r: Result<(String, Vec<u8>), BundleFault>)
    ensures
        match zip_listing(bytes@) {
            None => r matches Err(BundleFault::Open(_)),
            Some(v) => match app_binary(v, 0) {
                None => r matches Err(BundleFault::Nothing),
                Some(i) => match v[i]->0.data {
                    None => r matches Err(BundleFault::Unpack(_)),
                    Some(data) => r is Ok && r->Ok_0.0@ == leaf(v[i]->0.name) && r->Ok_0.1@ == data,
                },
            },
        },
{
    let mut zip = match open_zip(bytes) {
        Ok(a) => a,
        Err(e) => {
            return Err(BundleFault::Open(e));
        },
    };
    let n: usize = zip_len(&zip);
    let ghost v = zip_entries(zip);
    let mut i: usize = 0;
    while i < n
        invariant
            i <= n,
            n == v.len(),
            zip_entries(zip) == v,
            zip_listing(bytes@) == Some(v),
            app_binary(v, 0) == app_binary(v, i as int),
        decreases n - i,
    {
        if let Ok((name, is_file)) = zip_head(&mut zip, i) {
            if is_program(name.as_str(), is_file) {
                let chars = to_chars(name.as_str());
                let short = from_chars(tail_of(chars.as_slice(), &Class::One('/')));
                return match zip_data(&mut zip, i) {
                    Ok(data) => Ok((short, data)),
                    Err(e) => Err(BundleFault::Unpack(e)),
                };
            }
        }
        i += 1;
    }
    Err(BundleFault::Nothing)
}

// -------------------------------------------------------------------- being current

/// The installed version is known and is another than the tag.
pub open spec fn differs(installed: Seq<char>, tag: Seq<char>) -> bool {
    let i = trim(installed);
    i.len() > 0 && i != "unknown"@ && i != trim(tag)
}

/// Does an installed version differ from the latest release? An inequality, not
/// an ordering: versions are either a release tag or a `<sha>-dev` string, which
/// have no total order. An empty or unknown version never nags.
pub fn differs_from_release(installed: &str, tag: &str) -> (r: bool)
    ensures
        r == differs(installed@, tag@),
{
    let a = to_chars(installed);
    let i: &[char] = trimmed(a.as_slice());
    let t = trim_str(tag);
    i.len() > 0 && !eq_str(i, "unknown") && !eq_str(i, t.as_str())
}

/// A version never differs from itself, white space around either text does not
/// matter, and a version that is empty or unknown never nags.
pub proof fn law_a_release_is_current_with_itself(installed: Seq<char>, tag: Seq<char>)
    ensures
        !differs(tag, tag),
        differs(trim(installed), trim(tag)) == differs(installed, tag),
        !differs(seq![], tag),
        !differs("unknown"@, tag),
{
    lemma_trim_twice(installed);
    lemma_trim_twice(tag);
    lemma_trim_within(Seq::<char>::empty());
    reveal_strlit("unknown");
    let u = "unknown"@;
    lemma_skip_bounds(u, Class::White, 0);
    lemma_unskip_bounds(u, Class::White, 0, u.len() as int);
    assert(!white(u[0]) && !white(u[6]));
    assert(trim(u) =~= u);
}

} // verus!
