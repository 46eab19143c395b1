//! Station backups: what goes into one, how it is framed, and what a restore writes.
//!
//! A backup holds the irreplaceable files of a station's data directory as one
//! canonical CBOR map, which its caller seals. A restore opens the map, refuses one of
//! another version, refuses to write over a station unless it is told to, and stops at
//! the first file name that could lead out of the directory.

use vstd::prelude::*;

use dcbor::CBOR;

use crate::cbor::{is_shallow, nesting, MAX_NESTING};
use crate::clock::{host_read, host_seconds, whole_seconds};
use crate::order::{
    lemma_text_rank, law_sorting_is_a_sorted_rearrangement, sort_by_rank, stable_sort, text_before, text_precedes, Ranked,
};
use crate::text::{
    chars_of, debug_of, debug_text, decimal, decimal_u64, join2, join3, same_text,
};

verus! {

/// File extension for a written backup archive.
pub const BACKUP_EXTENSION: &'static str = "rrnbak";

/// The bundle format that this build writes and reads.
pub const BUNDLE_VERSION: u32 = 1;

/// The station's database file.
pub const DB_FILE: &'static str = "station.db";

/// The station's wallet file.
pub const WALLET_FILE: &'static str = "wallet.rrnwallet";

/// The file that lists the paired mobiles.
pub const PAIRED_FILE: &'static str = "paired_mobiles.json";

/// The station's configuration file.
pub const CONFIG_FILE: &'static str = "config.toml";

const VERSION_KEY: &'static str = "v";

const FILES_KEY: &'static str = "files";

/// One archived file: its name in the data directory, and its contents.
#[derive(Clone, Debug, PartialEq, Eq)]
pub struct BackupFile {
    /// The file's name, relative to the data directory.
    pub name: String,
    /// The file's contents.
    pub bytes: Vec<u8>,
}

/// The plaintext of a backup: a format version and the archived files.
#[derive(Clone, Debug, PartialEq, Eq)]
pub struct BackupBundle {
    /// The bundle's format version.
    pub version: u32,
    /// The archived files.
    pub files: Vec<BackupFile>,
}

/// Files as pairs of a name and contents.
pub open spec fn listed(files: Seq<BackupFile>) -> Seq<(Seq<char>, Seq<u8>)> {
    files.map_values(|f: BackupFile| (f.name@, f.bytes@))
}

/// The contents under each name; of two files of one name the later counts.
pub open spec fn file_map(files: Seq<BackupFile>) -> Map<Seq<char>, Seq<u8>>
    decreases files.len(),
{
    if files.len() == 0 {
        Map::empty()
    } else {
        file_map(files.drop_last()).insert(files.last().name@, files.last().bytes@)
    }
}

/// No two files have one name.
pub open spec fn distinct_names(files: Seq<BackupFile>) -> bool {
    forall|i: int, j: int|
        #![trigger files[i], files[j]]
        0 <= i < j < files.len() ==> files[i].name@ != files[j].name@
}

/// Whether a text holds nothing but ASCII.
pub open spec fn plain(s: Seq<char>) -> bool {
    forall|i: int| 0 <= i < s.len() ==> #[trigger] s[i] <= '\u{7f}'
}

/// Whether every file has an ASCII name.
pub open spec fn plain_names(files: Seq<BackupFile>) -> bool {
    forall|i: int| 0 <= i < files.len() ==> plain((#[trigger] files[i]).name@)
}

/// The canonical CBOR of a map with a version under one key and, under another, a map
/// from file names to contents.
pub uninterp spec fn bundle_cbor(
    version_key: Seq<char>,
    version: u32,
    files_key: Seq<char>,
    files: Seq<(Seq<char>, Seq<u8>)>,
) -> Seq<u8>;

/// The version and the files that canonical CBOR holds under two keys, or what is wrong
/// with it.
pub uninterp spec fn cbor_bundle(
    bytes: Seq<u8>,
    version_key: Seq<char>,
    files_key: Seq<char>,
) -> Result<(u32, Map<Seq<char>, Seq<u8>>), Seq<char>>;

/// The version and the files that the bytes of a bundle hold, or what is wrong with them.
/// Bytes that are nested too deeply to be read hold none.
pub open spec fn bundle_of(bytes: Seq<u8>) -> Result<(u32, Map<Seq<char>, Seq<u8>>), Seq<char>> {
    if nesting(bytes) <= MAX_NESTING {
        cbor_bundle(bytes, "v"@, "files"@)
    } else {
        Err("nested too deeply"@)
    }
}

/// Whether canonical CBOR, not nested too deeply, holds a version and files under two
/// keys.
pub open spec fn holds(
    bytes: Seq<u8>,
    version_key: Seq<char>,
    files_key: Seq<char>,
    version: u32,
    files: Map<Seq<char>, Seq<u8>>,
) -> bool {
    nesting(bytes) <= MAX_NESTING && (cbor_bundle(bytes, version_key, files_key) matches Ok(found)
        && found.0 == version && found.1 == files)
}

/// Calls `dcbor::Map::insert` for each file and for the two keys, and
/// `dcbor::CBOR::to_cbor_data` on the outer map. The bytes are a function of the keys,
/// the version and the files. Where the keys are ASCII and differ and the names are
/// ASCII, [`decode_bundle`] reads the version and the files back: the encoder writes
/// keys in the order that the decoder asks for, and ASCII texts as they are, and no item
/// stands deeper than in a map in a map. Other texts it may write in another normal form, and of those nothing is said.
#[verifier::external_body]
fn encode_bundle(
    version_key: &str,
    version: u32,
    files_key: &str,
    files: &Vec<BackupFile>,
) -> (r: Vec<u8>)
    ensures
        r@ == bundle_cbor(version_key@, version, files_key@, listed(files@)),
        version_key@ != files_key@ && plain(version_key@) && plain(files_key@) && plain_names(
            files@,
        ) ==> holds(r@, version_key@, files_key@, version, file_map(files@)),
{
    let mut inner = dcbor::Map::new();
    for file in files.iter() {
        inner.insert(file.name.as_str(), CBOR::to_byte_string(&file.bytes));
    }
    let mut outer = dcbor::Map::new();
    outer.insert(version_key, version);
    outer.insert(files_key, CBOR::from(inner));
    CBOR::from(outer).to_cbor_data()
}

/// Calls `dcbor::CBOR::try_from_data`, `dcbor::Map::extract` for the two keys, and
/// `dcbor::Map::iter` on the map of files. What comes back, files or the text of the
/// error, is a function of the bytes and the keys; a CBOR map holds no key twice, so no
/// two of the files have one name. The decoder calls itself for each level of nesting, so
/// the nesting is bounded.
#[verifier::external_body]
fn decode_bundle(bytes: &[u8], version_key: &str, files_key: &str) -> (r: Result<
    (u32, Vec<BackupFile>),
    String,
>)
    requires
        nesting(bytes@) <= MAX_NESTING,
    ensures
        match r {
            Ok((version, files)) => holds(
                bytes@,
                version_key@,
                files_key@,
                version,
                file_map(files@),
            ) && distinct_names(files@),
            Err(e) => cbor_bundle(bytes@, version_key@, files_key@) matches Err(told) && told
                == e@,
        },
{
    let told = |e: dcbor::Error| e.to_string();
    let outer = CBOR::try_from_data(bytes).and_then(CBOR::try_into_map).map_err(told)?;
    let version: u32 = outer.extract(version_key).map_err(told)?;
    let field: CBOR = outer.extract(files_key).map_err(told)?;
    let mut files: Vec<BackupFile> = Vec::new();
    for (k, v) in field.try_into_map().map_err(told)?.iter() {
        let name = k.clone().try_into_text().map_err(told)?;
        let bytes = v.clone().try_into_byte_string().map_err(told)?;
        files.push(BackupFile { name, bytes });
    }
    Ok((version, files))
}

/// Why a bundle was not restored, or not whole.
#[derive(Clone, Debug, PartialEq, Eq)]
pub enum RestoreError {
    /// The decrypted bytes are no bundle.
    Unreadable {
        /// What is wrong with them.
        reason: String,
    },
    /// The bundle has a format that this build does not read.
    Unsupported {
        /// The bundle's version.
        version: u32,
    },
    /// The destination already holds a station.
    Occupied,
    /// A file name could lead out of the destination.
    Suspicious {
        /// The file's name.
        name: String,
    },
}

impl RestoreError {
    /// The error's text, for a restore into a directory.
    pub open spec fn says(&self, dest: Seq<char>) -> Seq<char> {
        match self {
            RestoreError::Unreadable { reason } => "parse decrypted backup bundle"@,
            RestoreError::Unsupported { version } => "unsupported backup bundle version "@
                + decimal(*version as nat) + " (this build supports 1)"@,
            RestoreError::Occupied => dest
                + " already contains a station (wallet or database present); pass --force to overwrite"@,
            RestoreError::Suspicious { name } => "refusing to restore suspicious filename "@
                + debug_text(name@),
        }
    }

    /// Renders the error for a restore into the directory that `dest` names.
    pub fn message(&self, dest: &str) -> (r: String)
        ensures
            r@ == self.says(dest@),
    {
        match self {
            RestoreError::Unreadable { reason } => "parse decrypted backup bundle".to_owned(),
            RestoreError::Unsupported { version } => {
                let n = decimal_u64(*version as u64);
                join3(
                    "unsupported backup bundle version ",
                    n.as_str(),
                    " (this build supports 1)",
                )
            },
            RestoreError::Occupied => join2(
                dest,
                " already contains a station (wallet or database present); pass --force to overwrite",
            ),
            RestoreError::Suspicious { name } => {
                let shown = debug_of(name.as_str());
                join2("refusing to restore suspicious filename ", shown.as_str())
            },
        }
    }
}

/// The refusal to back up a directory without a database at `path`.
pub fn no_database(path: &str) -> (r: String)
    ensures
        r@ == "no database at "@ + path@ + " \u{2014} not a station data dir"@,
{
    join3("no database at ", path, " \u{2014} not a station data dir")
}

/// What a backup archives: the database and the wallet, and the list of paired mobiles
/// and the configuration where the directory holds them.
pub open spec fn archived(
    db: Seq<u8>,
    wallet: Seq<u8>,
    paired: Option<Seq<u8>>,
    config: Option<Seq<u8>>,
) -> Map<Seq<char>, Seq<u8>> {
    let needed = Map::<Seq<char>, Seq<u8>>::empty().insert(DB_FILE@, db).insert(
        WALLET_FILE@,
        wallet,
    );
    let listing = match paired {
        Some(bytes) => needed.insert(PAIRED_FILE@, bytes),
        None => needed,
    };
    match config {
        Some(bytes) => listing.insert(CONFIG_FILE@, bytes),
        None => listing,
    }
}

/// The contents of an optional file.
pub open spec fn contents(file: Option<Vec<u8>>) -> Option<Seq<u8>> {
    match file {
        Some(bytes) => Some(bytes@),
        None => None,
    }
}

proof fn lemma_station_files()
    ensures
        plain(DB_FILE@),
        plain(WALLET_FILE@),
        plain(PAIRED_FILE@),
        plain(CONFIG_FILE@),
        plain(VERSION_KEY@),
        plain(FILES_KEY@),
        VERSION_KEY@ != FILES_KEY@,
        DB_FILE@ != WALLET_FILE@,
        DB_FILE@ != PAIRED_FILE@,
        DB_FILE@ != CONFIG_FILE@,
        WALLET_FILE@ != PAIRED_FILE@,
        WALLET_FILE@ != CONFIG_FILE@,
        PAIRED_FILE@ != CONFIG_FILE@,
        !suspicious(DB_FILE@),
        !suspicious(WALLET_FILE@),
        !suspicious(PAIRED_FILE@),
        !suspicious(CONFIG_FILE@),
{
    reveal_strlit("station.db");
    reveal_strlit("wallet.rrnwallet");
    reveal_strlit("paired_mobiles.json");
    reveal_strlit("config.toml");
    reveal_strlit("v");
    reveal_strlit("files");
    assert("station.db"@.len() == 10);
    assert("wallet.rrnwallet"@.len() == 16);
    assert("paired_mobiles.json"@.len() == 19);
    assert("config.toml"@.len() == 11);
    assert("v"@.len() == 1);
    assert("files"@.len() == 5);
}

impl BackupBundle {
    /// The bundle of a station's files, in this build's format.
    pub fn of_station(
        db: Vec<u8>,
        wallet: Vec<u8>,
        paired: Option<Vec<u8>>,
        config: Option<Vec<u8>>,
    ) -> (r: BackupBundle)
        ensures
            r.version == BUNDLE_VERSION,
            file_map(r.files@) == archived(db@, wallet@, contents(paired), contents(config)),
            distinct_names(r.files@),
            plain_names(r.files@),
            harmless(r.files@),
    {
        let mut files: Vec<BackupFile> = Vec::new();
        proof {
            lemma_station_files();
        }
        files.push(BackupFile { name: DB_FILE.to_owned(), bytes: db });
        assert(files@.drop_last() =~= Seq::<BackupFile>::empty());
        assert(file_map(Seq::<BackupFile>::empty()) =~= Map::<Seq<char>, Seq<u8>>::empty());
        assert(file_map(files@) =~= Map::<Seq<char>, Seq<u8>>::empty().insert(DB_FILE@, db@));
        let ghost one = files@;
        files.push(BackupFile { name: WALLET_FILE.to_owned(), bytes: wallet });
        assert(files@.drop_last() =~= one);
        assert(file_map(files@) =~= file_map(one).insert(WALLET_FILE@, wallet@));
        let ghost two = files@;
        match paired {
            Some(bytes) => {
                files.push(BackupFile { name: PAIRED_FILE.to_owned(), bytes });
                assert(files@.drop_last() =~= two);
            },
            None => {},
        }
        let ghost three = files@;
        assert(file_map(three) =~= archived(db@, wallet@, contents(paired), None));
        match config {
            Some(bytes) => {
                files.push(BackupFile { name: CONFIG_FILE.to_owned(), bytes });
                assert(files@.drop_last() =~= three);
            },
            None => {},
        }
        BackupBundle { version: BUNDLE_VERSION, files }
    }

    /// The bundle's canonical bytes. Those of a bundle whose file names are ASCII, as a
    /// station's are, hold the bundle's version and files.
    pub fn to_bytes(&self) -> (r: Vec<u8>)
        ensures
            r@ == bundle_cbor("v"@, self.version, "files"@, listed(self.files@)),
            plain_names(self.files@) ==> holds(
                r@,
                "v"@,
                "files"@,
                self.version,
                file_map(self.files@),
            ),
    {
        proof {
            lemma_station_files();
        }
        encode_bundle(VERSION_KEY, self.version, FILES_KEY, &self.files)
    }

    /// Opens a decrypted bundle: it must be one, of this build's version.
    pub fn open(bytes: &[u8]) -> (r: Result<BackupBundle, RestoreError>)
        ensures
            match bundle_of(bytes@) {
                Err(e) => r matches Err(RestoreError::Unreadable { reason }) && reason@ == e,
                Ok((version, files)) => if version != BUNDLE_VERSION {
                    r matches Err(RestoreError::Unsupported { version: v }) && v == version
                } else {
                    r matches Ok(b) && b.version == version && file_map(b.files@) == files
                        && distinct_names(b.files@)
                },
            },
    {
        if !is_shallow(bytes) {
            return Err(RestoreError::Unreadable { reason: "nested too deeply".to_owned() });
        }
        match decode_bundle(bytes, VERSION_KEY, FILES_KEY) {
            Err(reason) => Err(RestoreError::Unreadable { reason }),
            Ok((version, files)) => {
                if version != BUNDLE_VERSION {
                    Err(RestoreError::Unsupported { version })
                } else {
                    Ok(BackupBundle { version, files })
                }
            },
        }
    }
}

/// Whether a file name could steer a write out of the directory: it holds a separator
/// or two dots in a row.
pub open spec fn suspicious(name: Seq<char>) -> bool {
    ||| exists|i: int| 0 <= i < name.len() && (#[trigger] name[i] == '/' || name[i] == '\\')
    ||| exists|i: int| 0 <= i < name.len() - 1 && #[trigger] name[i] == '.' && name[i + 1] == '.'
}

/// No file has a suspicious name.
pub open spec fn harmless(files: Seq<BackupFile>) -> bool {
    forall|i: int| 0 <= i < files.len() ==> !suspicious((#[trigger] files[i]).name@)
}

/// Whether a file name could steer a write out of the directory.
pub fn is_suspicious(name: &str) -> (r: bool)
    ensures
        r == suspicious(name@),
{
    let cs = chars_of(name);
    let n: usize = cs.len();
    let mut i: usize = 0;
    while i < n
        invariant
            i <= n,
            n == cs@.len(),
            cs@ == name@,
            forall|j: int| 0 <= j < i ==> #[trigger] name@[j] != '/' && name@[j] != '\\',
            forall|j: int|
                0 <= j < i && j < n - 1 ==> !(#[trigger] name@[j] == '.' && name@[j + 1] == '.'),
        decreases n - i,
    {
        if cs[i] == '/' || cs[i] == '\\' {
            assert(name@[i as int] == '/' || name@[i as int] == '\\');
            return true;
        }
        if n - i > 1 && cs[i] == '.' && cs[i + 1] == '.' {
            assert(name@[i as int] == '.' && name@[i + 1] == '.');
            return true;
        }
        i = i + 1;
    }
    false
}

impl Ranked for BackupFile {
    open spec fn before(&self, other: &Self) -> bool {
        text_before(self.name@, other.name@)
    }

    fn precedes(&self, other: &Self) -> (r: bool) {
        text_precedes(self.name.as_str(), other.name.as_str())
    }

    proof fn lemma_order(a: &Self, b: &Self, c: &Self) {
        lemma_text_rank(a.name@, b.name@, c.name@);
    }
}

/// The files that a restore writes, in the order given: all up to the first suspicious
/// name, but not the wallet where it is left out.
pub open spec fn written(files: Seq<BackupFile>, skip_wallet: bool) -> Seq<BackupFile>
    decreases files.len(),
{
    if files.len() == 0 {
        Seq::empty()
    } else if skip_wallet && files[0].name@ == WALLET_FILE@ {
        written(files.skip(1), skip_wallet)
    } else if suspicious(files[0].name@) {
        Seq::empty()
    } else {
        seq![files[0]] + written(files.skip(1), skip_wallet)
    }
}

/// The first name that a restore refuses, if there is one.
pub open spec fn refused_name(files: Seq<BackupFile>, skip_wallet: bool) -> Option<Seq<char>>
    decreases files.len(),
{
    if files.len() == 0 {
        None
    } else if skip_wallet && files[0].name@ == WALLET_FILE@ {
        refused_name(files.skip(1), skip_wallet)
    } else if suspicious(files[0].name@) {
        Some(files[0].name@)
    } else {
        refused_name(files.skip(1), skip_wallet)
    }
}

/// What a restore does: the files it writes, in order, and the error that ends it.
#[derive(Clone, Debug, PartialEq, Eq)]
pub struct RestorePlan {
    /// The files to write, in this order.
    pub writes: Vec<BackupFile>,
    /// What is reported when they are written; nothing where the restore is whole.
    pub error: Option<RestoreError>,
}

impl RestorePlan {
    /// Whether the plan writes files in the order of their names, up to the first
    /// suspicious one, and reports that one.
    pub open spec fn restores(&self, files: Seq<BackupFile>, skip_wallet: bool) -> bool {
        &&& self.writes@ == written(stable_sort(files), skip_wallet)
        &&& match refused_name(stable_sort(files), skip_wallet) {
            None => self.error is None,
            Some(n) => self.error matches Some(RestoreError::Suspicious { name }) && name@ == n,
        }
    }
}

/// Plans the restore of a bundle. A destination that already holds a wallet or a
/// database is refused unless the restore is forced. Otherwise the files are taken by
/// name, up to the first suspicious one; a recovery leaves out the stored wallet, whose
/// passphrase is lost.
pub fn restore_plan(
    bundle: BackupBundle,
    wallet_present: bool,
    db_present: bool,
    force: bool,
    skip_wallet: bool,
) -> (r: RestorePlan)
    ensures
        (wallet_present || db_present) && !force ==> r.writes@.len() == 0 && r.error
            == Some(RestoreError::Occupied),
        !((wallet_present || db_present) && !force) ==> r.restores(bundle.files@, skip_wallet),
{
    if (wallet_present || db_present) && !force {
        return RestorePlan { writes: Vec::new(), error: Some(RestoreError::Occupied) };
    }
    let mut rest = sort_by_rank(bundle.files);
    let ghost whole = rest@;
    let mut writes: Vec<BackupFile> = Vec::new();
    assert(whole.skip(0) =~= whole);
    assert(written(whole, skip_wallet) =~= writes@ + written(rest@, skip_wallet));
    while rest.len() > 0
        invariant
            writes@ + written(rest@, skip_wallet) == written(whole, skip_wallet),
            refused_name(rest@, skip_wallet) == refused_name(whole, skip_wallet),
            whole == stable_sort(bundle.files@),
            !((wallet_present || db_present) && !force),
        decreases rest.len(),
    {
        let ghost before = rest@;
        let file = rest.remove(0);
        assert(rest@ =~= before.skip(1));
        if !(skip_wallet && same_text(file.name.as_str(), WALLET_FILE)) {
            if is_suspicious(file.name.as_str()) {
                assert(writes@ + written(before, skip_wallet) =~= writes@);
                return RestorePlan {
                    writes,
                    error: Some(RestoreError::Suspicious { name: file.name }),
                };
            }
            assert(writes@ + (seq![file] + written(rest@, skip_wallet)) =~= writes@.push(file)
                + written(rest@, skip_wallet));
            writes.push(file);
        }
    }
    assert(writes@ + written(rest@, skip_wallet) =~= writes@);
    RestorePlan { writes, error: None }
}

/// The plaintext of a backup of the station whose database file is at `db_path`: refused
/// where there is no database, and otherwise the canonical bytes of a bundle of the
/// station's files.
pub fn create_backup(
    db_path: &str,
    db: Option<Vec<u8>>,
    wallet: Vec<u8>,
    paired: Option<Vec<u8>>,
    config: Option<Vec<u8>>,
) -> (r: Result<Vec<u8>, String>)
    ensures
        match db {
            None => r matches Err(e) && e@ == "no database at "@ + db_path@
                + " \u{2014} not a station data dir"@,
            Some(db) => r matches Ok(bytes) && holds(
                bytes@,
                "v"@,
                "files"@,
                BUNDLE_VERSION,
                archived(db@, wallet@, contents(paired), contents(config)),
            ),
        },
{
    match db {
        None => Err(no_database(db_path)),
        Some(db) => {
            let bundle = BackupBundle::of_station(db, wallet, paired, config);
            Ok(bundle.to_bytes())
        },
    }
}

/// Whether a plan is what comes of a bundle's bytes.
pub open spec fn plans(
    plan: RestorePlan,
    plaintext: Seq<u8>,
    occupied: bool,
    force: bool,
    skip_wallet: bool,
) -> bool {
    match bundle_of(plaintext) {
        Err(e) => plan.writes@.len() == 0 && (plan.error matches Some(
            RestoreError::Unreadable { reason },
        ) && reason@ == e),
        Ok((version, files)) => if version != BUNDLE_VERSION {
            plan.writes@.len() == 0 && plan.error == Some(RestoreError::Unsupported { version })
        } else if occupied && !force {
            plan.writes@.len() == 0 && plan.error == Some(RestoreError::Occupied)
        } else {
            exists|list: Seq<BackupFile>|
                #![trigger file_map(list)]
                file_map(list) == files && distinct_names(list) && plan.restores(list, skip_wallet)
        },
    }
}

fn restore(
    plaintext: &[u8],
    wallet_present: bool,
    db_present: bool,
    force: bool,
    skip_wallet: bool,
) -> (r: RestorePlan)
    ensures
        plans(r, plaintext@, wallet_present || db_present, force, skip_wallet),
{
    match BackupBundle::open(plaintext) {
        Err(e) => RestorePlan { writes: Vec::new(), error: Some(e) },
        Ok(bundle) => restore_plan(bundle, wallet_present, db_present, force, skip_wallet),
    }
}

/// Plans the restore of a decrypted backup: what to write, and what to report.
pub fn restore_backup(plaintext: &[u8], wallet_present: bool, db_present: bool, force: bool) -> (r:
    RestorePlan)
    ensures
        plans(r, plaintext@, wallet_present || db_present, force, false),
{
    restore(plaintext, wallet_present, db_present, force, false)
}

/// Plans the restore of a backup that was opened with the station's recovered key: as
/// [`restore_backup`], without the stored wallet.
pub fn restore_with_secret(plaintext: &[u8], wallet_present: bool, db_present: bool, force: bool) -> (r:
    RestorePlan)
    ensures
        plans(r, plaintext@, wallet_present || db_present, force, true),
{
    restore(plaintext, wallet_present, db_present, force, true)
}

/// A backup of a station's files, restored into an empty directory or by force, writes
/// every file as it was archived, and reports nothing.
pub proof fn law_backups_restore_whole(
    plan: RestorePlan,
    plaintext: Seq<u8>,
    occupied: bool,
    force: bool,
    db: Seq<u8>,
    wallet: Seq<u8>,
    paired: Option<Seq<u8>>,
    config: Option<Seq<u8>>,
)
    requires
        holds(plaintext, "v"@, "files"@, BUNDLE_VERSION, archived(db, wallet, paired, config)),
        plans(plan, plaintext, occupied, force, false),
        !occupied || force,
    ensures
        file_map(plan.writes@) == archived(db, wallet, paired, config),
        plan.error is None,
{
    let files = archived(db, wallet, paired, config);
    let list = choose|list: Seq<BackupFile>|
        #![trigger file_map(list)]
        file_map(list) == files && distinct_names(list) && plan.restores(list, false);
    lemma_station_files();
    lemma_file_map(list);
    assert forall|i: int| 0 <= i < list.len() implies !suspicious((#[trigger] list[i]).name@) by {
        assert(files.dom().contains(list[i].name@));
    }
    law_a_restore_gives_back_what_was_archived(list);
}

/// A directory that already holds a station is not written to unless the restore is
/// forced.
pub proof fn law_stations_are_not_overwritten(
    plan: RestorePlan,
    plaintext: Seq<u8>,
    skip_wallet: bool,
)
    requires
        plans(plan, plaintext, true, false, skip_wallet),
    ensures
        plan.writes@.len() == 0,
        plan.error is Some,
{
}

/// No restore writes a file under a suspicious name.
pub proof fn law_restores_stay_in_the_directory(files: Seq<BackupFile>, skip_wallet: bool)
    ensures
        harmless(written(files, skip_wallet)),
    decreases files.len(),
{
    if files.len() > 0 {
        law_restores_stay_in_the_directory(files.skip(1), skip_wallet);
    }
}

/// A recovery does not write the stored wallet.
pub proof fn law_recoveries_leave_the_wallet_out(files: Seq<BackupFile>)
    ensures
        forall|i: int|
            0 <= i < written(files, true).len() ==> (#[trigger] written(files, true)[i]).name@
                != WALLET_FILE@,
    decreases files.len(),
{
    if files.len() > 0 {
        let rest = written(files.skip(1), true);
        law_recoveries_leave_the_wallet_out(files.skip(1));
        assert forall|i: int| 0 <= i < written(files, true).len() implies (#[trigger] written(
            files,
            true,
        )[i]).name@ != WALLET_FILE@ by {
            if files[0].name@ == WALLET_FILE@ {
                assert(written(files, true)[i] == rest[i]);
            } else if i > 0 {
                assert(written(files, true)[i] == rest[i - 1]);
            }
        }
    }
}

proof fn lemma_all_written(files: Seq<BackupFile>)
    requires
        harmless(files),
    ensures
        written(files, false) == files,
        refused_name(files, false) is None,
    decreases files.len(),
{
    if files.len() > 0 {
        lemma_all_written(files.skip(1));
        assert(files =~= seq![files[0]] + files.skip(1));
    } else {
        assert(files =~= Seq::<BackupFile>::empty());
    }
}

proof fn lemma_file_map(files: Seq<BackupFile>)
    requires
        distinct_names(files),
    ensures
        forall|i: int|
            0 <= i < files.len() ==> file_map(files).dom().contains(
                (#[trigger] files[i]).name@,
            ) && file_map(files)[files[i].name@] == files[i].bytes@,
        forall|n: Seq<char>| #[trigger]
            file_map(files).dom().contains(n) ==> exists|i: int|
                0 <= i < files.len() && (#[trigger] files[i]).name@ == n,
    decreases files.len(),
{
    if files.len() > 0 {
        let rest = files.drop_last();
        assert(distinct_names(rest)) by {
            assert forall|i: int, j: int|
                #![trigger rest[i], rest[j]]
                0 <= i < j < rest.len() implies rest[i].name@ != rest[j].name@ by {
                assert(rest[i] == files[i] && rest[j] == files[j]);
            }
        }
        lemma_file_map(rest);
        assert forall|i: int| 0 <= i < files.len() implies file_map(files).dom().contains(
            (#[trigger] files[i]).name@,
        ) && file_map(files)[files[i].name@] == files[i].bytes@ by {
            if i < rest.len() {
                assert(rest[i] == files[i]);
                assert(files[i].name@ != files[files.len() - 1].name@);
            }
        }
        assert forall|n: Seq<char>| #[trigger]
            file_map(files).dom().contains(n) implies exists|i: int|
            0 <= i < files.len() && (#[trigger] files[i]).name@ == n by {
            if n == files.last().name@ {
                assert(files[files.len() - 1].name@ == n);
            } else {
                assert(file_map(rest).dom().contains(n));
                let i = choose|i: int| 0 <= i < rest.len() && (#[trigger] rest[i]).name@ == n;
                assert(files[i].name@ == n);
            }
        }
    }
}

proof fn lemma_rearranged(a: Seq<BackupFile>, b: Seq<BackupFile>)
    requires
        distinct_names(a),
        a.to_multiset() == b.to_multiset(),
    ensures
        distinct_names(b),
        file_map(a) == file_map(b),
{
    broadcast use vstd::seq_lib::group_to_multiset_ensures;
    assert(a.no_duplicates());
    a.lemma_multiset_has_no_duplicates();
    assert(forall|x: BackupFile| b.to_multiset().contains(x) ==> b.to_multiset().count(x) == 1);
    b.lemma_multiset_has_no_duplicates_conv();
    assert forall|x: BackupFile| a.contains(x) <==> b.contains(x) by {
        assert(a.contains(x) <==> a.to_multiset().count(x) > 0);
        assert(b.contains(x) <==> b.to_multiset().count(x) > 0);
    }
    assert forall|i: int, j: int|
        #![trigger b[i], b[j]]
        0 <= i < j < b.len() implies b[i].name@ != b[j].name@ by {
        assert(b.contains(b[i]) && b.contains(b[j]));
        assert(a.contains(b[i]) && a.contains(b[j]));
        let k = choose|k: int| 0 <= k < a.len() && a[k] == b[i];
        let l = choose|l: int| 0 <= l < a.len() && a[l] == b[j];
        assert(b[i] != b[j]);
        assert(a[k].name@ != a[l].name@);
    }
    lemma_file_map(a);
    lemma_file_map(b);
    assert forall|n: Seq<char>| file_map(a).dom().contains(n) <==> file_map(b).dom().contains(n) by {
        if file_map(a).dom().contains(n) {
            let i = choose|i: int| 0 <= i < a.len() && (#[trigger] a[i]).name@ == n;
            assert(a.contains(a[i]));
            assert(b.contains(a[i]));
        }
        if file_map(b).dom().contains(n) {
            let i = choose|i: int| 0 <= i < b.len() && (#[trigger] b[i]).name@ == n;
            assert(b.contains(b[i]));
            assert(a.contains(b[i]));
        }
    }
    assert forall|n: Seq<char>| file_map(a).dom().contains(n) implies file_map(a)[n]
        == file_map(b)[n] by {
        let i = choose|i: int| 0 <= i < a.len() && (#[trigger] a[i]).name@ == n;
        assert(a.contains(a[i]));
        assert(b.contains(a[i]));
        let j = choose|j: int| 0 <= j < b.len() && b[j] == a[i];
        assert(b[j].name@ == n);
    }
    assert(file_map(a) =~= file_map(b));
}

/// A restore of a bundle without suspicious names gives every file back as it was
/// archived, and reports nothing.
pub proof fn law_a_restore_gives_back_what_was_archived(files: Seq<BackupFile>)
    requires
        distinct_names(files),
        harmless(files),
    ensures
        file_map(written(stable_sort(files), false)) == file_map(files),
        refused_name(stable_sort(files), false) is None,
{
    broadcast use vstd::seq_lib::group_to_multiset_ensures;
    let sorted = stable_sort(files);
    law_sorting_is_a_sorted_rearrangement(files);
    assert forall|i: int| 0 <= i < sorted.len() implies !suspicious((#[trigger] sorted[i]).name@) by {
        assert(sorted.contains(sorted[i]));
        assert(sorted.to_multiset().count(sorted[i]) > 0);
        assert(files.contains(sorted[i]));
        let k = choose|k: int| 0 <= k < files.len() && files[k] == sorted[i];
        assert(!suspicious(files[k].name@));
    }
    lemma_all_written(sorted);
    lemma_rearranged(files, sorted);
}

/// The name of a backup made at a time, in seconds since the epoch.
pub open spec fn archive_name(since_epoch: Option<u64>) -> Seq<char> {
    "station-backup-"@ + decimal(
        match since_epoch {
            Some(s) => s as nat,
            None => 0,
        },
    ) + ".rrnbak"@
}

/// The name of a backup made at a time, in seconds since the epoch.
pub fn backup_name(since_epoch: Option<u64>) -> (r: String)
    ensures
        r@ == archive_name(since_epoch),
{
    let secs: u64 = match since_epoch {
        Some(s) => s,
        None => 0,
    };
    let n = decimal_u64(secs);
    join3("station-backup-", n.as_str(), ".rrnbak")
}

/// The default archive path of a backup: a file in the current directory, named after
/// the host clock's time. Which time that is is not stated.
pub fn default_backup_path() -> (r: String)
    ensures
        exists|t: Option<(u64, u32)>| #[trigger]
            host_read(t) && r@ == archive_name(whole_seconds(t)),
{
    backup_name(host_seconds())
}

/// A name is suspicious exactly where it holds a slash, a backslash, or two dots in a row, at
/// whatever place.
pub proof fn law_a_separator_makes_a_name_suspicious(name: &str, r: bool)
    requires
        call_ensures(is_suspicious, (name,), r),
    ensures
        r <==> name@.contains('/') || name@.contains('\\') || exists|i: int|
            0 <= i < name@.len() - 1 && #[trigger] name@[i] == '.' && name@[i + 1] == '.',
{
    if exists|i: int| 0 <= i < name@.len() && (#[trigger] name@[i] == '/' || name@[i] == '\\') {
        let i = choose|i: int|
            0 <= i < name@.len() && (#[trigger] name@[i] == '/' || name@[i] == '\\');
        assert(name@.contains(name@[i]));
    }
    if name@.contains('/') {
        let i = choose|i: int| 0 <= i < name@.len() && name@[i] == '/';
        assert(name@[i] == '/' || name@[i] == '\\');
    }
    if name@.contains('\\') {
        let i = choose|i: int| 0 <= i < name@.len() && name@[i] == '\\';
        assert(name@[i] == '/' || name@[i] == '\\');
    }
}

proof fn lemma_written(files: Seq<BackupFile>, skip_wallet: bool)
    ensures
        forall|i: int|
            0 <= i < written(files, skip_wallet).len() ==> files.contains(
                #[trigger] written(files, skip_wallet)[i],
            ) && !suspicious(written(files, skip_wallet)[i].name@) && !(skip_wallet && written(
                files,
                skip_wallet,
            )[i].name@ == WALLET_FILE@),
        refused_name(files, skip_wallet) is None ==> forall|j: int|
            0 <= j < files.len() && !(skip_wallet && files[j].name@ == WALLET_FILE@) ==> written(
                files,
                skip_wallet,
            ).contains(#[trigger] files[j]),
        refused_name(files, skip_wallet) is None <==> forall|j: int|
            0 <= j < files.len() && suspicious((#[trigger] files[j]).name@) ==> skip_wallet
                && files[j].name@ == WALLET_FILE@,
    decreases files.len(),
{
    let out = written(files, skip_wallet);
    if files.len() > 0 {
        let rest = files.skip(1);
        let tail = written(rest, skip_wallet);
        lemma_written(rest, skip_wallet);
        assert forall|x: BackupFile| rest.contains(x) implies files.contains(x) by {
            let k = choose|k: int| 0 <= k < rest.len() && rest[k] == x;
            assert(files[k + 1] == x);
        }
        assert(files.contains(files[0]));
        let passed = skip_wallet && files[0].name@ == WALLET_FILE@;
        assert forall|i: int| 0 <= i < out.len() implies files.contains(#[trigger] out[i])
            && !suspicious(out[i].name@) && !(skip_wallet && out[i].name@ == WALLET_FILE@) by {
            if passed {
                assert(out[i] == tail[i]);
            } else if !suspicious(files[0].name@) && i > 0 {
                assert(out[i] == tail[i - 1]);
            }
        }
        if refused_name(files, skip_wallet) is None {
            assert forall|j: int|
                0 <= j < files.len() && !(skip_wallet && files[j].name@
                    == WALLET_FILE@) implies out.contains(#[trigger] files[j]) by {
                if j > 0 {
                    assert(rest[j - 1] == files[j]);
                    assert(tail.contains(rest[j - 1]));
                    let k = choose|k: int| 0 <= k < tail.len() && tail[k] == files[j];
                    if passed {
                        assert(out[k] == files[j]);
                    } else {
                        assert(out[k + 1] == files[j]);
                    }
                } else {
                    assert(out[0] == files[0]);
                }
            }
            assert forall|j: int|
                0 <= j < files.len() && suspicious((#[trigger] files[j]).name@) implies skip_wallet
                && files[j].name@ == WALLET_FILE@ by {
                if j > 0 {
                    assert(rest[j - 1] == files[j]);
                }
            }
        } else if forall|j: int|
            0 <= j < files.len() && suspicious((#[trigger] files[j]).name@) ==> skip_wallet
                && files[j].name@ == WALLET_FILE@ {
            assert forall|j: int|
                0 <= j < rest.len() && suspicious((#[trigger] rest[j]).name@) implies skip_wallet
                && rest[j].name@ == WALLET_FILE@ by {
                assert(rest[j] == files[j + 1]);
            }
            assert(suspicious(files[0].name@) ==> passed);
        }
    }
}

proof fn lemma_rearranged_files(a: Seq<BackupFile>, x: BackupFile)
    ensures
        a.contains(x) <==> stable_sort(a).contains(x),
{
    broadcast use vstd::seq_lib::group_to_multiset_ensures;
    law_sorting_is_a_sorted_rearrangement(a);
    assert(a.contains(x) <==> a.to_multiset().count(x) > 0);
    assert(stable_sort(a).contains(x) <==> stable_sort(a).to_multiset().count(x) > 0);
}

/// A restore that reports nothing writes every file of the bundle as it stands, but for the
/// wallet in a recovery, and nothing else; it reports nothing exactly where it may write and
/// no name among these is suspicious. Whatever it reports, it writes only files of the
/// bundle, under harmless names.
pub proof fn law_a_restore_writes_the_bundle(
    bundle: BackupBundle,
    wallet_present: bool,
    db_present: bool,
    force: bool,
    skip_wallet: bool,
    r: RestorePlan,
    file: BackupFile,
)
    requires
        call_ensures(restore_plan, (bundle, wallet_present, db_present, force, skip_wallet), r),
    ensures
        r.writes@.contains(file) ==> bundle.files@.contains(file) && !suspicious(file.name@) && !(
        skip_wallet && file.name@ == "wallet.rrnwallet"@) && (force || !wallet_present
            && !db_present),
        r.error is None ==> (r.writes@.contains(file) <==> bundle.files@.contains(file) && !(
        skip_wallet && file.name@ == "wallet.rrnwallet"@)),
        r.error is None <==> (force || !wallet_present && !db_present) && forall|j: int|
            0 <= j < bundle.files@.len() && suspicious((#[trigger] bundle.files@[j]).name@) ==> (
            skip_wallet && bundle.files@[j].name@ == "wallet.rrnwallet"@),
{
    if force || !wallet_present && !db_present {
        let files = bundle.files@;
        let sorted = stable_sort(files);
        lemma_written(sorted, skip_wallet);
        lemma_rearranged_files(files, file);
        if r.writes@.contains(file) {
            let k = choose|k: int| 0 <= k < r.writes@.len() && r.writes@[k] == file;
            assert(sorted.contains(written(sorted, skip_wallet)[k]));
        }
        if r.error is None && files.contains(file) && !(skip_wallet && file.name@ == WALLET_FILE@) {
            let k = choose|k: int| 0 <= k < sorted.len() && sorted[k] == file;
            assert(written(sorted, skip_wallet).contains(sorted[k]));
        }
        if refused_name(sorted, skip_wallet) is None {
            assert forall|j: int|
                0 <= j < files.len() && suspicious((#[trigger] files[j]).name@) implies (skip_wallet
                && files[j].name@ == "wallet.rrnwallet"@) by {
                lemma_rearranged_files(files, files[j]);
                assert(files.contains(files[j]));
                let k = choose|k: int| 0 <= k < sorted.len() && sorted[k] == files[j];
                assert(suspicious(sorted[k].name@));
            }
        } else if forall|j: int|
            0 <= j < files.len() && suspicious((#[trigger] files[j]).name@) ==> (skip_wallet
                && files[j].name@ == "wallet.rrnwallet"@) {
            assert forall|j: int|
                0 <= j < sorted.len() && suspicious((#[trigger] sorted[j]).name@) implies skip_wallet
                && sorted[j].name@ == WALLET_FILE@ by {
                lemma_rearranged_files(files, sorted[j]);
                assert(sorted.contains(sorted[j]));
                let k = choose|k: int| 0 <= k < files.len() && files[k] == sorted[j];
                assert(suspicious(files[k].name@));
            }
        }
    }
}

/// What was backed up comes back: restoring the bytes of a backup into an empty directory
/// writes the database, the wallet, and the list of paired mobiles and the configuration
/// where they were there, each under its own name with its own contents, nothing else, and
/// reports nothing; a recovery with the station's key does the same without the wallet.
pub proof fn law_what_was_backed_up_comes_back(
    db_path: &str,
    db: Vec<u8>,
    wallet: Vec<u8>,
    paired: Option<Vec<u8>>,
    config: Option<Vec<u8>>,
    bytes: Vec<u8>,
    plaintext: &[u8],
    plan: RestorePlan,
    recovery: RestorePlan,
    name: Seq<char>,
    content: Seq<u8>,
)
    requires
        call_ensures(
            create_backup,
            (db_path, Some(db), wallet, paired, config),
            Ok::<Vec<u8>, String>(bytes),
        ),
        plaintext@ == bytes@,
        call_ensures(restore_backup, (plaintext, false, false, false), plan),
        call_ensures(restore_with_secret, (plaintext, false, false, false), recovery),
    ensures
        plan.error is None,
        recovery.error is None,
        ({
            let there = {
                ||| name == "station.db"@ && content == db@
                ||| name == "wallet.rrnwallet"@ && content == wallet@
                ||| name == "paired_mobiles.json"@ && (paired matches Some(p) && content == p@)
                ||| name == "config.toml"@ && (config matches Some(c) && content == c@)
            };
            &&& there <==> exists|i: int|
                0 <= i < plan.writes@.len() && (#[trigger] plan.writes@[i]).name@ == name
                    && plan.writes@[i].bytes@ == content
            &&& there && name != "wallet.rrnwallet"@ <==> exists|i: int|
                0 <= i < recovery.writes@.len() && (#[trigger] recovery.writes@[i]).name@ == name
                    && recovery.writes@[i].bytes@ == content
        }),
{
    let files = archived(db@, wallet@, contents(paired), contents(config));
    lemma_station_files();
    lemma_restored_files(plan, files, false, name, content);
    lemma_restored_files(recovery, files, true, name, content);
}

proof fn lemma_restored_files(
    plan: RestorePlan,
    files: Map<Seq<char>, Seq<u8>>,
    skip_wallet: bool,
    name: Seq<char>,
    content: Seq<u8>,
)
    requires
        exists|list: Seq<BackupFile>|
            #![trigger file_map(list)]
            file_map(list) == files && distinct_names(list) && plan.restores(list, skip_wallet),
        forall|n: Seq<char>| #[trigger] files.dom().contains(n) ==> !suspicious(n),
    ensures
        plan.error is None,
        files.dom().contains(name) && files[name] == content && !(skip_wallet && name
            == WALLET_FILE@) <==> exists|i: int|
            0 <= i < plan.writes@.len() && (#[trigger] plan.writes@[i]).name@ == name
                && plan.writes@[i].bytes@ == content,
{
    let list = choose|list: Seq<BackupFile>|
        #![trigger file_map(list)]
        file_map(list) == files && distinct_names(list) && plan.restores(list, skip_wallet);
    let sorted = stable_sort(list);
    lemma_file_map(list);
    lemma_written(sorted, skip_wallet);
    assert forall|j: int|
        0 <= j < sorted.len() && suspicious((#[trigger] sorted[j]).name@) implies skip_wallet
        && sorted[j].name@ == WALLET_FILE@ by {
        lemma_rearranged_files(list, sorted[j]);
        assert(sorted.contains(sorted[j]));
        let k = choose|k: int| 0 <= k < list.len() && list[k] == sorted[j];
        assert(files.dom().contains(list[k].name@));
    }
    if files.dom().contains(name) && files[name] == content && !(skip_wallet && name
        == WALLET_FILE@) {
        let k = choose|k: int| 0 <= k < list.len() && (#[trigger] list[k]).name@ == name;
        lemma_rearranged_files(list, list[k]);
        assert(list.contains(list[k]));
        let j = choose|j: int| 0 <= j < sorted.len() && sorted[j] == list[k];
        assert(written(sorted, skip_wallet).contains(sorted[j]));
        let i = choose|i: int| 0 <= i < plan.writes@.len() && plan.writes@[i] == list[k];
        assert(plan.writes@[i].name@ == name);
    }
    if exists|i: int|
        0 <= i < plan.writes@.len() && (#[trigger] plan.writes@[i]).name@ == name
            && plan.writes@[i].bytes@ == content {
        let i = choose|i: int|
            0 <= i < plan.writes@.len() && (#[trigger] plan.writes@[i]).name@ == name
                && plan.writes@[i].bytes@ == content;
        let x = written(sorted, skip_wallet)[i];
        assert(sorted.contains(x));
        lemma_rearranged_files(list, x);
        let k = choose|k: int| 0 <= k < list.len() && list[k] == x;
        assert(list[k].name@ == name);
    }
}

/// A backup is named after the seconds at which it was made, in decimal, and after zero where
/// the clock stands before the epoch.
pub proof fn law_a_backup_is_named_after_its_time(
    since_epoch: Option<u64>,
    secs: u64,
    digits: String,
    r: String,
)
    requires
        call_ensures(backup_name, (since_epoch,), r),
        since_epoch == Some(secs) || (since_epoch is None && secs == 0),
        call_ensures(decimal_u64, (secs,), digits),
    ensures
        r@ == "station-backup-"@ + digits@ + ".rrnbak"@,
{
}

} // verus!
