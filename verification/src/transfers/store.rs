//! The transfer log of one wallet: an append-only list of events in a
//! key-value file. The key of an event is its position in the list, written
//! in decimal, starting at 0.

use crate::messages::{byte_strings, copy_bytes, Error};
use crate::name::XorName;
use vstd::prelude::*;

verus! {

/// The key-value file of the `pickledb` crate.
#[verifier::external_type_specification]
#[verifier::external_body]
pub struct ExPickleDb(pickledb::PickleDb);

/// The keys that the file holds, of values and of lists alike: those for
/// which `PickleDb::exists` says yes.
pub uninterp spec fn db_keys(db: pickledb::PickleDb) -> Set<Seq<char>>;

/// The byte strings that the file holds: under each key of a value that
/// reads back as a byte string, that byte string.
pub uninterp spec fn db_values(db: pickledb::PickleDb) -> Map<Seq<char>, Seq<u8>>;

/// What `PickleDb::total_keys` counts: the keys of values and the keys of
/// lists.
pub uninterp spec fn db_count(db: pickledb::PickleDb) -> nat;

/// The path that the file was made with: the one that `PickleDb::new` or
/// `PickleDb::load` was given, which is where the file is written.
pub uninterp spec fn db_path(db: pickledb::PickleDb) -> Seq<char>;

/// Why the file refused.
#[derive(Clone, Copy, Debug, PartialEq, Eq, Structural)]
pub enum DbFault {
    /// The file could not be read or written.
    Io,
    /// The file does not hold what a key-value file holds.
    Serialization,
}

/// The name of the directory of the transfer logs under the root directory
/// of a node.
pub const TRANSFERS_DIR_NAME: &'static str = "transfers";

/// The ending of the name of a transfer log.
pub const DB_EXTENSION: &'static str = ".db";

/// The decimal digits of `n`.
pub open spec fn decimal(n: nat) -> Seq<char>
    decreases n,
{
    if n < 10 {
        seq![digit_char(n)]
    } else {
        decimal(n / 10).push(digit_char(n % 10))
    }
}

/// The character of one decimal digit.
pub open spec fn digit_char(d: nat) -> char {
    if d == 0 {
        '0'
    } else if d == 1 {
        '1'
    } else if d == 2 {
        '2'
    } else if d == 3 {
        '3'
    } else if d == 4 {
        '4'
    } else if d == 5 {
        '5'
    } else if d == 6 {
        '6'
    } else if d == 7 {
        '7'
    } else if d == 8 {
        '8'
    } else {
        '9'
    }
}

/// The character of one hexadecimal digit, in lower case.
pub open spec fn hex_char(d: nat) -> char {
    if d < 10 {
        digit_char(d)
    } else if d == 10 {
        'a'
    } else if d == 11 {
        'b'
    } else if d == 12 {
        'c'
    } else if d == 13 {
        'd'
    } else if d == 14 {
        'e'
    } else {
        'f'
    }
}

/// The 32 hexadecimal digits of `x`, most significant first.
pub open spec fn hex32(x: u128) -> Seq<char> {
    Seq::new(32, |i: int| hex_char(((x as nat) / pow16((31 - i) as nat)) % 16))
}

/// 16 to the power of `e`.
pub open spec fn pow16(e: nat) -> nat
    decreases e,
{
    if e == 0 {
        1
    } else {
        16 * pow16((e - 1) as nat)
    }
}

/// The path of the transfer log of wallet `id` in the directory `dir`.
pub open spec fn log_path(dir: Seq<char>, id: XorName, ending: Seq<char>) -> Seq<char> {
    dir + seq!['/'] + hex32(id.hi) + hex32(id.lo) + ending
}

/// Formats with `format!` of std. Believed: that the number comes out as
/// 32 hexadecimal digits, in lower case with leading zeros.
#[verifier::external_body]
fn hex_digits(x: u128) -> (digits: String)
    ensures
        digits@ == hex32(x),
{
    format!("{:032x}", x)
}

/// Joins the directory, the name of the wallet in hexadecimal digits and
/// the ending of the file.
fn format_log_path(dir: &str, id: &XorName, ending: &str) -> (path: String)
    ensures
        path@ == log_path(dir@, *id, ending@),
{
    let mut path = String::from_str(dir);
    proof {
        reveal_strlit("/");
        assert("/"@ =~= seq!['/']);
    }
    path.append("/");
    path.append(hex_digits(id.hi).as_str());
    path.append(hex_digits(id.lo).as_str());
    path.append(ending);
    path
}

/// Calls `usize::to_string` of std. Believed: that the result is the number
/// in decimal digits, without sign and without leading zeros.
#[verifier::external_body]
fn index_key(n: usize) -> (key: String)
    ensures
        key@ == decimal(n as nat),
{
    n.to_string()
}

/// Calls `PickleDb::load_bin` with the policy that writes the file on every
/// change, and tells the two kinds of its error apart (`get_type`). What
/// the file holds is not known here. Believed: that a file that was opened
/// keeps the path that it was opened at.
#[verifier::external_body]
fn db_open(path: &str) -> (r: Result<pickledb::PickleDb, DbFault>)
    ensures
        r matches Ok(db) ==> db_path(db) == path@,
{
    match pickledb::PickleDb::load_bin(path, pickledb::PickleDbDumpPolicy::AutoDump) {
        Ok(db) => Ok(db),
        Err(e) => match e.get_type() {
            pickledb::error::ErrorType::Io => Err(DbFault::Io),
            pickledb::error::ErrorType::Serialization => Err(DbFault::Serialization),
        },
    }
}

/// Calls `PickleDb::new_bin` with the policy that writes the file on every
/// change. Believed: that the new file holds no key and keeps the path that
/// it was made with. Nothing is written yet.
#[verifier::external_body]
fn db_create(path: &str) -> (db: pickledb::PickleDb)
    ensures
        db_path(db) == path@,
        forall|k: Seq<char>| !db_keys(db).contains(k),
        forall|k: Seq<char>| !db_values(db).contains_key(k),
        db_count(db) == 0,
{
    pickledb::PickleDb::new_bin(path, pickledb::PickleDbDumpPolicy::AutoDump)
}

/// Calls `PickleDb::dump`: writes the file. Believed: that what the file
/// holds in memory, and its path, stay as they are, whether the write
/// succeeds or not. The call names its temporary file by the seconds since
/// 1970 and panics on a machine whose clock stands before that year: that
/// is a matter of the machine, which no condition on the arguments can
/// leave out.
#[verifier::external_body]
fn db_dump(db: &mut pickledb::PickleDb) -> (r: Result<(), DbFault>)
    ensures
        db_path(*final(db)) == db_path(*old(db)),
        db_keys(*final(db)) == db_keys(*old(db)),
        db_values(*final(db)) == db_values(*old(db)),
        db_count(*final(db)) == db_count(*old(db)),
{
    match db.dump() {
        Ok(()) => Ok(()),
        Err(e) => match e.get_type() {
            pickledb::error::ErrorType::Io => Err(DbFault::Io),
            pickledb::error::ErrorType::Serialization => Err(DbFault::Serialization),
        },
    }
}

/// Calls `PickleDb::total_keys`. Believed: that it counts the keys of
/// values and of lists, so that a count of 0 means that the file holds no
/// key and no value.
#[verifier::external_body]
fn db_total_keys(db: &pickledb::PickleDb) -> (n: usize)
    ensures
        n as nat == db_count(*db),
        n == 0 ==> forall|k: Seq<char>|
            !db_keys(*db).contains(k) && !db_values(*db).contains_key(k),
{
    db.total_keys()
}

/// Calls `PickleDb::exists`.
#[verifier::external_body]
fn db_exists(db: &pickledb::PickleDb, key: &str) -> (r: bool)
    ensures
        r == db_keys(*db).contains(key@),
{
    db.exists(key)
}

/// Calls `PickleDb::get_all`. Believed: that it lists the keys of values and
/// of lists, so that a key is listed exactly when the file holds it, and
/// that every key under which a byte string is held is among them.
#[verifier::external_body]
fn db_all_keys(db: &pickledb::PickleDb) -> (r: Vec<String>)
    ensures
        forall|k: Seq<char>|
            db_keys(*db).contains(k) <==> exists|i: int|
                0 <= i < r@.len() && (#[trigger] r@[i])@ == k,
        forall|k: Seq<char>| #[trigger]
            db_values(*db).contains_key(k) ==> exists|i: int|
                0 <= i < r@.len() && (#[trigger] r@[i])@ == k,
{
    db.get_all()
}

/// Calls `PickleDb::get` for a byte string. Believed: that it gives the
/// byte string that is held under the key, and nothing where none is.
#[verifier::external_body]
fn db_get(db: &pickledb::PickleDb, key: &str) -> (r: Option<Vec<u8>>)
    ensures
        match r {
            Some(v) => db_values(*db).contains_key(key@) && db_values(*db)[key@] == v@,
            None => !db_values(*db).contains_key(key@),
        },
{
    db.get::<Vec<u8>>(key)
}

/// Calls `PickleDb::set` with a byte string as the value. Believed: that
/// the path of the file stays; and, of a key that the file does not hold,
/// that on success the file holds the byte string under the key, one key
/// more, and everything else as before, and on failure what it held.
/// Nothing is claimed of the contents for a key that the file holds
/// already. The call writes the file as `PickleDb::dump` does, and like it
/// panics on a machine whose clock stands before 1970.
#[verifier::external_body]
fn db_set(db: &mut pickledb::PickleDb, key: &str, value: &Vec<u8>) -> (r: Result<(), DbFault>)
    ensures
        db_path(*final(db)) == db_path(*old(db)),
        !db_keys(*old(db)).contains(key@) && r is Ok ==> {
            &&& db_keys(*final(db)) == db_keys(*old(db)).insert(key@)
            &&& db_values(*final(db)) == db_values(*old(db)).insert(key@, value@)
            &&& db_count(*final(db)) == db_count(*old(db)) + 1
        },
        !db_keys(*old(db)).contains(key@) && r is Err ==> {
            &&& db_keys(*final(db)) == db_keys(*old(db))
            &&& db_values(*final(db)) == db_values(*old(db))
            &&& db_count(*final(db)) == db_count(*old(db))
        },
{
    match db.set(key, value) {
        Ok(()) => Ok(()),
        Err(e) => match e.get_type() {
            pickledb::error::ErrorType::Io => Err(DbFault::Io),
            pickledb::error::ErrorType::Serialization => Err(DbFault::Serialization),
        },
    }
}

/// Calls `PickleDb::iter` and reads each entry as a byte string
/// (`get_key`, `get_value`). Believed: that no key comes twice; that an
/// entry which reads as a byte string is an entry of the file; and that
/// every byte string of the file comes as an entry. The order of the
/// entries is that of a hash map: nothing is claimed of it.
#[verifier::external_body]
fn db_entries(db: &pickledb::PickleDb) -> (r: Vec<(String, Option<Vec<u8>>)>)
    ensures
        forall|i: int, j: int| 0 <= i < j < r@.len() ==> r@[i].0@ != r@[j].0@,
        forall|i: int|
            0 <= i < r@.len() ==> ((#[trigger] r@[i]).1 matches Some(v) ==> db_values(
                *db,
            ).contains_key(r@[i].0@) && db_values(*db)[r@[i].0@] == v@),
        forall|k: Seq<char>| #[trigger]
            db_values(*db).contains_key(k) ==> exists|i: int|
                0 <= i < r@.len() && (#[trigger] r@[i]).0@ == k && r@[i].1 is Some,
{
    db.iter().map(|e| (e.get_key().to_string(), e.get_value::<Vec<u8>>())).collect()
}

/// What a write to the file comes to, for each answer of the file: a write
/// that was done is done, and a refusal of either kind is `Storage`.
pub fn written(answer: Result<(), DbFault>) -> (r: Result<(), Error>)
    ensures
        r is Ok <==> answer is Ok,
        r matches Err(e) ==> e == Error::Storage,
{
    match answer {
        Ok(_) => Ok(()),
        Err(_) => Err(Error::Storage),
    }
}

/// Tells whether a character is a decimal digit.
pub open spec fn is_digit(c: char) -> bool {
    '0' <= c && c <= '9'
}

/// The value of a decimal digit.
pub open spec fn digit_value(c: char) -> nat {
    (c as u32 - '0' as u32) as nat
}

/// The number that a string of decimal digits spells.
pub open spec fn digits_value(s: Seq<char>) -> nat
    decreases s.len(),
{
    if s.len() == 0 {
        0
    } else {
        digits_value(s.drop_last()) * 10 + digit_value(s.last())
    }
}

/// Every character is a decimal digit.
pub open spec fn all_digits(s: Seq<char>) -> bool {
    forall|i: int| 0 <= i < s.len() ==> is_digit(#[trigger] s[i])
}

/// The string without a leading plus sign.
pub open spec fn unsigned(s: Seq<char>) -> Seq<char> {
    if s.len() > 0 && s[0] == '+' {
        s.subrange(1, s.len() as int)
    } else {
        s
    }
}

/// The position that a key names: the number that it spells in decimal
/// digits, which a plus sign may precede, where that number fits a `usize`.
/// Any other key names no position.
pub open spec fn key_index(s: Seq<char>) -> Option<usize> {
    let d = unsigned(s);
    if d.len() > 0 && all_digits(d) && digits_value(d) <= usize::MAX {
        Some(digits_value(d) as usize)
    } else {
        None
    }
}

proof fn lemma_digits_prefix(s: Seq<char>, k: int)
    requires
        0 <= k <= s.len(),
        all_digits(s),
    ensures
        digits_value(s.take(k)) <= digits_value(s),
    decreases s.len() - k,
{
    if k < s.len() {
        lemma_digits_prefix(s, k + 1);
        assert(s.take(k + 1).drop_last() =~= s.take(k));
        assert(is_digit(s[k]));
    } else {
        assert(s.take(k) =~= s);
    }
}

/// The decimal digits of a number spell that number.
pub proof fn lemma_decimal_value(n: nat)
    ensures
        decimal(n).len() > 0,
        all_digits(decimal(n)),
        digits_value(decimal(n)) == n,
        decimal(n)[0] != '+',
    decreases n,
{
    if n < 10 {
        let s = decimal(n);
        assert(s.drop_last() =~= Seq::<char>::empty());
        assert(digits_value(s.drop_last()) == 0);
        assert(s.last() == digit_char(n));
    } else {
        lemma_decimal_value(n / 10);
        let s = decimal(n);
        let t = decimal(n / 10);
        assert(s.drop_last() =~= t);
        assert(s.last() == digit_char(n % 10));
        assert(s[0] == t[0]);
        assert forall|i: int| 0 <= i < s.len() implies is_digit(#[trigger] s[i]) by {
            if i < t.len() {
                assert(s[i] == t[i]);
            }
        }
    }
}

/// The key of a position names that position.
pub proof fn lemma_key_of_index(n: nat)
    requires
        n <= usize::MAX,
    ensures
        key_index(decimal(n)) == Some(n as usize),
{
    lemma_decimal_value(n);
}

/// Reads the position that a key names.
pub fn parse_index(s: &str) -> (r: Option<usize>)
    ensures
        r == key_index(s@),
{
    let n = s.unicode_len();
    if n == 0 {
        return None;
    }
    let mut i: usize = 0;
    if s.get_char(0) == '+' {
        i = 1;
    }
    if i == n {
        return None;
    }
    let start = i;
    let ghost d = unsigned(s@);
    proof {
        assert(d =~= s@.subrange(start as int, n as int));
        assert(d.take(0) =~= Seq::<char>::empty());
    }
    let mut acc: usize = 0;
    while i < n
        invariant
            start <= i <= n,
            n == s@.len(),
            d == unsigned(s@),
            d == s@.subrange(start as int, n as int),
            all_digits(d.take(i - start)),
            acc == digits_value(d.take(i - start)),
        decreases n - i,
    {
        let c = s.get_char(i);
        let ghost k = i - start;
        proof {
            assert(d[k] == c);
            assert(d.take(k + 1).drop_last() =~= d.take(k));
            assert(d.take(k + 1).last() == c);
        }
        if c < '0' || c > '9' {
            proof {
                assert(!is_digit(d[k]));
                assert(!all_digits(d));
            }
            return None;
        }
        let v: usize = (c as u32 - '0' as u32) as usize;
        if acc > (usize::MAX - v) / 10 {
            proof {
                assert(digits_value(d.take(k + 1)) == acc * 10 + v);
                if all_digits(d) {
                    lemma_digits_prefix(d, k + 1);
                }
            }
            return None;
        }
        acc = acc * 10 + v;
        proof {
            assert forall|j: int| 0 <= j < k + 1 implies is_digit(#[trigger] d.take(k + 1)[j]) by {
                if j < k {
                    assert(d.take(k)[j] == d.take(k + 1)[j]);
                }
            }
        }
        i += 1;
    }
    proof {
        assert(d.take(n - start) =~= d);
    }
    Some(acc)
}

/// `r` lists the byte strings of `values` whose keys name a position, by
/// position: `keys` are those keys, each once, in the order of the list.
pub open spec fn lists_events(
    values: Map<Seq<char>, Seq<u8>>,
    keys: Seq<Seq<char>>,
    r: Seq<Seq<u8>>,
) -> bool {
    &&& keys.len() == r.len()
    &&& forall|i: int, j: int| 0 <= i < j < keys.len() ==> keys[i] != keys[j]
    &&& forall|i: int|
        0 <= i < keys.len() ==> values.contains_key(#[trigger] keys[i]) && key_index(keys[i])
            is Some && r[i] == values[keys[i]]
    &&& forall|i: int, j: int|
        0 <= i < j < keys.len() ==> key_index(keys[i])->Some_0 <= key_index(keys[j])->Some_0
    &&& forall|k: Seq<char>|
        values.contains_key(k) && key_index(k) is Some ==> exists|i: int|
            0 <= i < keys.len() && #[trigger] keys[i] == k
}

/// Disk storage for the transfer events of one wallet.
pub struct TransferStore {
    db: pickledb::PickleDb,
}

impl TransferStore {
    /// The keys in use.
    pub closed spec fn keys(&self) -> Set<Seq<char>> {
        db_keys(self.db)
    }

    /// The event under each key that holds one.
    pub closed spec fn values(&self) -> Map<Seq<char>, Seq<u8>> {
        db_values(self.db)
    }

    /// The count of keys.
    pub closed spec fn count(&self) -> nat {
        db_count(self.db)
    }

    /// The path of the file that the store is kept in.
    pub closed spec fn path(&self) -> Seq<char> {
        db_path(self.db)
    }

    /// The store is a log: its keys are the positions from 0 up to its
    /// count, each in decimal, and every key holds an event.
    pub open spec fn is_log(&self) -> bool {
        &&& self.count() <= usize::MAX
        &&& forall|i: nat| i < self.count() ==> self.keys().contains(#[trigger] decimal(i))
        &&& forall|k: Seq<char>|
            self.keys().contains(k) ==> key_index(k) is Some && key_index(k)->Some_0
                < self.count() && k == decimal(key_index(k)->Some_0 as nat)
        &&& forall|k: Seq<char>| self.keys().contains(k) <==> self.values().contains_key(k)
    }

    /// The events of a log in the order in which they were appended.
    pub open spec fn history(&self) -> Seq<Seq<u8>> {
        Seq::new(self.count(), |i: int| self.values()[decimal(i as nat)])
    }

    /// `after` holds what `self` holds.
    pub open spec fn same(&self, after: &TransferStore) -> bool {
        &&& after.keys() == self.keys()
        &&& after.values() == self.values()
        &&& after.count() == self.count()
    }

    /// `after` holds what `self` holds and `event` under the key of the next
    /// position.
    pub open spec fn appended(&self, after: &TransferStore, event: Seq<u8>) -> bool {
        &&& after.keys() == self.keys().insert(decimal(self.count()))
        &&& after.values() == self.values().insert(decimal(self.count()), event)
        &&& after.count() == self.count() + 1
    }

    /// What opening a log comes to, for each answer of the file: a file that
    /// was read is the store; a file that does not hold a key-value store
    /// is refused; a file that could not be read is created empty, and
    /// refused if it cannot be written.
    pub(crate) fn opened(loaded: Result<pickledb::PickleDb, DbFault>, path: &str) -> (r: Result<
        TransferStore,
        Error,
    >)
        ensures
            loaded matches Ok(db) ==> r matches Ok(s) && s.keys() == db_keys(db) && s.values()
                == db_values(db) && s.count() == db_count(db) && s.path() == db_path(db),
            loaded matches Err(f) ==> match r {
                Ok(s) => f == DbFault::Io && s.is_log() && s.count() == 0 && s.path() == path@,
                Err(e) => e == Error::Storage,
            },
    {
        match loaded {
            Ok(db) => Ok(TransferStore { db }),
            Err(DbFault::Serialization) => Err(Error::Storage),
            Err(DbFault::Io) => {
                let mut db = db_create(path);
                match written(db_dump(&mut db)) {
                    Ok(_) => Ok(TransferStore { db }),
                    Err(_) => Err(Error::Storage),
                }
            },
        }
    }

    /// Opens the log of wallet `id` in the directory of the transfer logs,
    /// and creates it where there is none. The directory has to be there:
    /// it is the one named `TRANSFERS_DIR_NAME` under the root directory of
    /// the node. The store that comes back is the file of that wallet: in
    /// that directory, named by the hexadecimal form of `id` with
    /// `DB_EXTENSION` behind it. What a log that was there holds, and
    /// whether the file can be opened at all, is for the disk to say:
    /// `get_all` reads it, and every refusal is `Storage`.
    pub fn new(id: XorName, transfers_dir: &str) -> (r: Result<TransferStore, Error>)
        ensures
            r matches Ok(s) ==> s.path() == log_path(transfers_dir@, id, DB_EXTENSION@),
            r matches Err(e) ==> e == Error::Storage,
    {
        let path = format_log_path(transfers_dir, &id, DB_EXTENSION);
        let loaded = db_open(path.as_str());
        Self::opened(loaded, path.as_str())
    }

    /// The count of keys. A store without keys is an empty log.
    pub fn len(&self) -> (n: usize)
        ensures
            n == self.count(),
            n == 0 ==> self.is_log(),
    {
        db_total_keys(&self.db)
    }

    /// Tells whether the store is a log: whether every position up to the
    /// count holds an event and every key is the key of such a position.
    pub fn is_intact(&self) -> (r: bool)
        ensures
            r == self.is_log(),
    {
        let n = db_total_keys(&self.db);
        let mut i: usize = 0;
        while i < n
            invariant
                i <= n,
                n == self.count(),
                forall|j: nat| j < i ==> self.values().contains_key(#[trigger] decimal(j)),
            decreases n - i,
        {
            let key = index_key(i);
            if db_get(&self.db, key.as_str()).is_none() {
                proof {
                    if self.is_log() {
                        assert(self.keys().contains(decimal(i as nat)));
                    }
                }
                return false;
            }
            i += 1;
        }
        let keys = db_all_keys(&self.db);
        let mut j: usize = 0;
        while j < keys.len()
            invariant
                j <= keys@.len(),
                n == self.count(),
                forall|k: Seq<char>|
                    self.keys().contains(k) <==> exists|i: int|
                        0 <= i < keys@.len() && (#[trigger] keys@[i])@ == k,
                forall|i: int|
                    0 <= i < j ==> key_index((#[trigger] keys@[i])@) is Some && key_index(
                        keys@[i]@,
                    )->Some_0 < n && keys@[i]@ == decimal(key_index(keys@[i]@)->Some_0 as nat),
            decreases keys@.len() - j,
        {
            let ok = match parse_index(keys[j].as_str()) {
                Some(p) => p < n && index_key(p) == keys[j],
                None => false,
            };
            if !ok {
                proof {
                    assert(self.keys().contains(keys@[j as int]@));
                }
                return false;
            }
            j += 1;
        }
        proof {
            assert forall|k: Seq<char>| self.keys().contains(k) implies key_index(k) is Some
                && key_index(k)->Some_0 < self.count() && k == decimal(
                key_index(k)->Some_0 as nat,
            ) by {
                let i = choose|i: int| 0 <= i < keys@.len() && (#[trigger] keys@[i])@ == k;
            }
            assert forall|k: Seq<char>| self.values().contains_key(k) implies self.keys().contains(
                k,
            ) by {
                let i = choose|i: int| 0 <= i < keys@.len() && (#[trigger] keys@[i])@ == k;
            }
            assert forall|p: nat| p < self.count() implies self.keys().contains(
                #[trigger] decimal(p),
            ) by {
                assert(self.values().contains_key(decimal(p)));
            }
        }
        true
    }

    /// Appends an event under the key of the next position. Where that key
    /// is in use the answer is `KeyExists` with the position; where the
    /// file refuses the write the answer is `Storage`; in both cases the
    /// store holds what it held. The store stays the file that it was.
    pub fn try_insert(&mut self, event: Vec<u8>) -> (r: Result<(), Error>)
        ensures
            final(self).path() == old(self).path(),
            match r {
                Ok(_) => !old(self).keys().contains(decimal(old(self).count())) && old(self).appended(final(self), event@),
                Err(e) => old(self).same(final(self)) && if old(self).keys().contains(
                    decimal(old(self).count()),
                ) {
                    e == Error::KeyExists(old(self).count() as usize)
                } else {
                    e == Error::Storage
                },
            },
    {
        let position = db_total_keys(&self.db);
        let key = index_key(position);
        if db_exists(&self.db, key.as_str()) {
            return Err(Error::KeyExists(position));
        }
        written(db_set(&mut self.db, key.as_str(), &event))
    }

    /// Lists the events whose keys name a position, by position. Of a log
    /// this is its history.
    pub fn get_all(&self) -> (r: Vec<Vec<u8>>)
        ensures
            exists|keys: Seq<Seq<char>>| #[trigger]
                lists_events(self.values(), keys, byte_strings(r@)),
            self.is_log() ==> byte_strings(r@) == self.history(),
    {
        let entries = db_entries(&self.db);
        let mut events: Vec<(usize, Vec<u8>)> = Vec::new();
        let ghost mut keys: Seq<Seq<char>> = Seq::empty();
        let ghost values = self.values();
        let mut i: usize = 0;
        while i < entries.len()
            invariant
                i <= entries@.len(),
                values == self.values(),
                forall|a: int, b: int| 0 <= a < b < entries@.len() ==> entries@[a].0@ != entries@[b].0@,
                forall|a: int|
                    0 <= a < entries@.len() ==> ((#[trigger] entries@[a]).1 matches Some(v)
                        ==> values.contains_key(entries@[a].0@) && values[entries@[a].0@] == v@),
                keys.len() == events@.len(),
                forall|a: int, b: int| 0 <= a < b < keys.len() ==> keys[a] != keys[b],
                forall|a: int|
                    0 <= a < keys.len() ==> values.contains_key(#[trigger] keys[a]) && key_index(
                        keys[a],
                    ) == Some(events@[a].0) && events@[a].1@ == values[keys[a]],
                forall|a: int, b: int| 0 <= a < b < events@.len() ==> events@[a].0 <= events@[b].0,
                forall|a: int|
                    0 <= a < keys.len() ==> exists|e: int|
                        0 <= e < i && entries@[e].0@ == #[trigger] keys[a],
                forall|e: int|
                    0 <= e < i && (#[trigger] entries@[e]).1 is Some && key_index(entries@[e].0@)
                        is Some ==> exists|a: int| 0 <= a < keys.len() && keys[a] == entries@[e].0@,
            decreases entries@.len() - i,
        {
            let index = parse_index(entries[i].0.as_str());
            match (index, &entries[i].1) {
                (Some(k), Some(v)) => {
                    let mut p: usize = 0;
                    while p < events.len() && events[p].0 <= k
                        invariant
                            p <= events@.len(),
                            forall|a: int| 0 <= a < p ==> events@[a].0 <= k,
                        decreases events@.len() - p,
                    {
                        p += 1;
                    }
                    let ghost keys0 = keys;
                    let ghost events0 = events@;
                    let ghost key = entries@[i as int].0@;
                    events.insert(p, (k, copy_bytes(v)));
                    proof {
                        keys = keys0.insert(p as int, key);
                        assert(forall|a: int| 0 <= a < p ==> keys[a] == keys0[a] && events@[a] == events0[a]);
                        assert(forall|a: int|
                            p < a < keys.len() ==> keys[a] == keys0[a - 1] && events@[a] == events0[a - 1]);
                        assert(keys[p as int] == key);
                        assert forall|a: int| 0 <= a < keys0.len() implies keys0[a] != key by {
                            let e = choose|e: int| 0 <= e < i && entries@[e].0@ == keys0[a];
                        }
                        assert forall|a: int| 0 <= a < keys.len() implies exists|e: int|
                            0 <= e < i + 1 && entries@[e].0@ == #[trigger] keys[a] by {
                            if a < p {
                                let e = choose|e: int| 0 <= e < i && entries@[e].0@ == keys0[a];
                                assert(entries@[e].0@ == keys[a]);
                            } else if a == p {
                                assert(entries@[i as int].0@ == keys[a]);
                            } else {
                                let e = choose|e: int| 0 <= e < i && entries@[e].0@ == keys0[a - 1];
                                assert(entries@[e].0@ == keys[a]);
                            }
                        }
                        assert forall|e: int|
                            0 <= e < i + 1 && (#[trigger] entries@[e]).1 is Some && key_index(
                                entries@[e].0@,
                            ) is Some implies exists|a: int|
                            0 <= a < keys.len() && keys[a] == entries@[e].0@ by {
                            if e < i {
                                let a = choose|a: int|
                                    0 <= a < keys0.len() && keys0[a] == entries@[e].0@;
                                if a < p {
                                    assert(keys[a] == entries@[e].0@);
                                } else {
                                    assert(keys[a + 1] == entries@[e].0@);
                                }
                            } else {
                                assert(keys[p as int] == entries@[e].0@);
                            }
                        }
                        assert forall|a: int, b: int| 0 <= a < b < events@.len() implies events@[a].0
                            <= events@[b].0 by {
                            if b < p {
                            } else if b == p {
                            } else if a < p {
                                assert(events@[b] == events0[b - 1]);
                                if p < events0.len() {
                                    assert(events0[p as int].0 <= events0[b - 1].0);
                                }
                            } else if a == p {
                                assert(events@[b] == events0[b - 1]);
                                if p < b - 1 {
                                    assert(events0[p as int].0 <= events0[b - 1].0);
                                }
                            } else {
                                assert(events0[a - 1].0 <= events0[b - 1].0);
                            }
                        }
                    }
                },
                _ => {
                    proof {
                        assert forall|a: int| 0 <= a < keys.len() implies exists|e: int|
                            0 <= e < i + 1 && entries@[e].0@ == #[trigger] keys[a] by {
                            let e = choose|e: int| 0 <= e < i && entries@[e].0@ == keys[a];
                            assert(0 <= e < i + 1 && entries@[e].0@ == keys[a]);
                        }
                    }
                },
            }
            i += 1;
        }
        let mut r: Vec<Vec<u8>> = Vec::new();
        let mut j: usize = 0;
        while j < events.len()
            invariant
                j <= events@.len(),
                r@.len() == j,
                forall|a: int| 0 <= a < j ==> r@[a]@ == events@[a].1@,
            decreases events@.len() - j,
        {
            r.push(copy_bytes(&events[j].1));
            j += 1;
        }
        proof {
            let out = byte_strings(r@);
            assert forall|k: Seq<char>|
                values.contains_key(k) && key_index(k) is Some implies exists|a: int|
                0 <= a < keys.len() && #[trigger] keys[a] == k by {
                let e = choose|e: int|
                    0 <= e < entries@.len() && (#[trigger] entries@[e]).0@ == k && entries@[e].1
                        is Some;
                let a = choose|a: int| 0 <= a < keys.len() && keys[a] == entries@[e].0@;
                assert(keys[a] == k);
            }
            assert(lists_events(values, keys, out));
            if self.is_log() {
                lemma_log_is_listed(*self, keys, out);
            }
        }
        r
    }
}

/// In a log the key of the next position is free.
pub proof fn lemma_next_key_is_free(store: TransferStore)
    requires
        store.is_log(),
    ensures
        !store.keys().contains(decimal(store.count())),
{
    let k = decimal(store.count());
    if store.keys().contains(k) {
        lemma_decimal_value(store.count());
        lemma_decimal_value(key_index(k)->Some_0 as nat);
    }
}

/// Appending to a log gives a log, whose history is the old history and the
/// new event behind it: positions stay contiguous from 0.
pub proof fn lemma_append_extends_log(before: TransferStore, after: TransferStore, event: Seq<u8>)
    requires
        before.is_log(),
        before.count() < usize::MAX,
        before.appended(&after, event),
    ensures
        after.is_log(),
        after.history() == before.history().push(event),
{
    let n = before.count();
    lemma_next_key_is_free(before);
    lemma_key_of_index(n);
    assert forall|i: nat| i < after.count() implies after.keys().contains(#[trigger] decimal(i)) by {
        if i < n {
            assert(before.keys().contains(decimal(i)));
        }
    }
    assert forall|i: nat| i < n implies after.values()[#[trigger] decimal(i)]
        == before.values()[decimal(i)] by {
        assert(before.keys().contains(decimal(i)));
        lemma_decimal_value(i);
        lemma_decimal_value(n);
    }
    assert(after.history() =~= before.history().push(event));
}

/// What lists the events of a log by position is the history of the log.
pub proof fn lemma_log_is_listed(store: TransferStore, keys: Seq<Seq<char>>, r: Seq<Seq<u8>>)
    requires
        store.is_log(),
        lists_events(store.values(), keys, r),
    ensures
        r == store.history(),
{
    let n = store.count();
    assert forall|p: int| 0 <= p < keys.len() implies key_index(#[trigger] keys[p])->Some_0 < n
        && keys[p] == decimal(key_index(keys[p])->Some_0 as nat) by {
        assert(store.values().contains_key(keys[p]));
        assert(store.keys().contains(keys[p]));
    }
    assert forall|p: int, q: int| 0 <= p < q < keys.len() implies key_index(keys[p])->Some_0
        < key_index(keys[q])->Some_0 by {
        assert(keys[p] != keys[q]);
    }
    lemma_positions(store, keys, r, keys.len() as int);
    if keys.len() < n {
        let k = decimal(keys.len() as nat);
        lemma_key_of_index(keys.len() as nat);
        assert(store.keys().contains(k));
        assert(store.values().contains_key(k));
        let p = choose|p: int| 0 <= p < keys.len() && #[trigger] keys[p] == k;
        assert(key_index(keys[p])->Some_0 == p);
    }
    if keys.len() > n {
        assert(key_index(keys[keys.len() - 1])->Some_0 == keys.len() - 1);
        assert(key_index(keys[keys.len() - 1])->Some_0 < n);
    }
    assert(keys.len() == n);
    assert forall|i: int| 0 <= i < n implies r[i] == store.history()[i] by {
        assert(key_index(keys[i])->Some_0 == i);
        assert(keys[i] == decimal(i as nat));
        assert(r[i] == store.values()[keys[i]]);
    }
    assert(r =~= store.history());
}

proof fn lemma_positions(store: TransferStore, keys: Seq<Seq<char>>, r: Seq<Seq<u8>>, m: int)
    requires
        store.is_log(),
        lists_events(store.values(), keys, r),
        0 <= m <= keys.len(),
        forall|p: int, q: int|
            0 <= p < q < keys.len() ==> key_index(keys[p])->Some_0 < key_index(keys[q])->Some_0,
    ensures
        forall|p: int| 0 <= p < m ==> key_index(#[trigger] keys[p])->Some_0 == p,
    decreases m,
{
    if m > 0 {
        lemma_positions(store, keys, r, m - 1);
        let last = m - 1;
        let at = key_index(keys[last])->Some_0 as int;
        if last > 0 {
            assert(key_index(keys[last - 1])->Some_0 == last - 1);
            assert(at > last - 1);
        }
        if at > last {
            let k = decimal(last as nat);
            assert(store.values().contains_key(keys[last]));
            assert(store.keys().contains(keys[last]));
            lemma_key_of_index(last as nat);
            assert(store.keys().contains(k));
            assert(store.values().contains_key(k));
            let p = choose|p: int| 0 <= p < keys.len() && #[trigger] keys[p] == k;
            if p < last {
                assert(key_index(keys[p])->Some_0 == p);
            } else if p > last {
                assert(key_index(keys[last])->Some_0 < key_index(keys[p])->Some_0);
            }
        }
    }
}

} // verus!
