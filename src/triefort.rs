use vstd::prelude::*;
use crate::bytes::{
    be64, bytes_eq, copy_range, from_be64, lemma_be64_round_trip, push_all, push_be64, read_be64,
};
use crate::hex::{hex_of, hex_range, is_key_text, key_text, lemma_hex_injective, starts_with, to_hex};

verus! {

/// How many key bytes name each directory level, and how many levels there are.
#[derive(Clone, Copy, Debug, PartialEq, Eq)]
pub struct Config {
    pub shard_width: usize,
    pub shard_levels: usize,
}

pub const DEFAULT_WIDTH: usize = 1;

pub const DEFAULT_LEVELS: usize = 2;

impl Config {
    /// The width is at least one byte and the shortest key fits in a `usize`.
    pub open spec fn wf(&self) -> bool {
        &&& self.shard_width >= 1
        &&& self.shard_width * self.shard_levels + 1 <= usize::MAX
    }

    /// The shortest key a store holds: one byte past the shard prefix.
    pub open spec fn min_key_len(&self) -> int {
        1 + self.shard_width * self.shard_levels
    }

    /// Two levels of one byte each.
    pub fn default_config() -> (c: Config)
        ensures
            c.shard_width == DEFAULT_WIDTH,
            c.shard_levels == DEFAULT_LEVELS,
            c.wf(),
    {
        Config { shard_width: DEFAULT_WIDTH, shard_levels: DEFAULT_LEVELS }
    }

    /// A configuration from its two numbers, if they make one.
    pub fn new(shard_width: usize, shard_levels: usize) -> (r: Option<Config>)
        ensures
            r is Some <==> (Config { shard_width, shard_levels }).wf(),
            r matches Some(c) ==> c.shard_width == shard_width && c.shard_levels == shard_levels,
    {
        if shard_width == 0 {
            return None;
        }
        match shard_width.checked_mul(shard_levels) {
            Some(p) => {
                if p < usize::MAX {
                    Some(Config { shard_width, shard_levels })
                } else {
                    None
                }
            },
            None => None,
        }
    }

    pub fn min_key_size(&self) -> (r: usize)
        requires
            self.wf(),
        ensures
            r == self.min_key_len(),
    {
        1 + self.shard_width * self.shard_levels
    }

    /// The directories above a key's leaf file: one for each of the first
    /// `shard_levels` chunks of `shard_width` bytes that the key holds whole,
    /// named by the chunk's hexadecimal text.
    pub fn dir_from_key(&self, key: &[u8]) -> (r: Vec<String>)
        requires
            self.wf(),
        ensures
            r@.map_values(|d: String| d@) == shard_dirs(*self, key@),
    {
        let w = self.shard_width;
        let count = if key.len() / w < self.shard_levels {
            key.len() / w
        } else {
            self.shard_levels
        };
        proof {
            let len: int = key@.len() as int;
            let wi: int = w as int;
            vstd::arithmetic::div_mod::lemma_fundamental_div_mod(len, wi);
            vstd::arithmetic::div_mod::lemma_mod_pos_bound(len, wi);
            let q: int = len / wi;
            assert(count * wi <= len) by (nonlinear_arith)
                requires
                    count <= q,
                    wi >= 1,
                    len == wi * q + len % wi,
                    len % wi >= 0,
            ;
        }
        let mut r: Vec<String> = Vec::new();
        let mut i: usize = 0;
        let mut at: usize = 0;
        while i < count
            invariant
                self.wf(),
                w == self.shard_width,
                count == shard_count(*self, key@.len()),
                count * w <= key@.len(),
                key@.len() <= usize::MAX,
                i <= count,
                at == i * w,
                r@.len() == i,
                forall|j: int| 0 <= j < i ==> #[trigger] r@[j]@ == shard_dir(key@, w as int, j),
            decreases count - i,
        {
            assert((i + 1) * w <= count * w) by (nonlinear_arith)
                requires
                    i + 1 <= count,
                    w >= 1,
            ;
            assert((i + 1) * w == i * w + w) by (nonlinear_arith);
            let d = hex_range(key, at, at + w);
            r.push(d);
            i = i + 1;
            at = at + w;
        }
        assert(r@.map_values(|d: String| d@) =~= shard_dirs(*self, key@));
        r
    }
}

/// How many directory levels a key of `len` bytes names.
pub open spec fn shard_count(cfg: Config, len: nat) -> nat {
    if len / (cfg.shard_width as nat) < cfg.shard_levels {
        len / (cfg.shard_width as nat)
    } else {
        cfg.shard_levels as nat
    }
}

/// The name of the directory at level `i` for `key`.
pub open spec fn shard_dir(key: Seq<u8>, w: int, i: int) -> Seq<char> {
    hex_of(key.subrange(i * w, i * w + w))
}

/// The directories above the leaf file of `key`, outermost first.
pub open spec fn shard_dirs(cfg: Config, key: Seq<u8>) -> Seq<Seq<char>> {
    Seq::new(shard_count(cfg, key.len()), |i: int| shard_dir(key, cfg.shard_width as int, i))
}


/// The path of the leaf file of `key` under a store's root: its directories,
/// then the hexadecimal text of the whole key.
pub open spec fn leaf_path(cfg: Config, key: Seq<u8>) -> Seq<Seq<char>> {
    shard_dirs(cfg, key).push(hex_of(key))
}

/// Records that a store can hold: each has a key, and a byte encoding that
/// decodes back to it.
pub trait Triefort: Sized + View {
    spec fn key_of(v: Self::V) -> Seq<u8>;

    spec fn encoding(v: Self::V) -> Seq<u8>;

    spec fn decoding(b: Seq<u8>) -> Option<Self::V>;

    /// Records whose every length fits the encoding.
    spec fn encodable(v: Self::V) -> bool;

    proof fn lemma_round_trip(v: Self::V)
        requires
            Self::encodable(v),
        ensures
            Self::decoding(Self::encoding(v)) == Some(v),
    ;

    fn key(&self) -> (r: &[u8])
        ensures
            r@ == Self::key_of(self@),
    ;

    fn encode(&self) -> (r: Vec<u8>)
        ensures
            r@ == Self::encoding(self@),
            Self::encodable(self@),
    ;

    fn decode(enc: &[u8]) -> (r: Option<Self>)
        ensures
            r is Some <==> Self::decoding(enc@) is Some,
            r matches Some(x) ==> Self::decoding(enc@) == Some(x@),
    ;

    fn check(&self, key: &[u8]) -> (r: bool)
        ensures
            r == (Self::key_of(self@) == key@),
    {
        bytes_eq(self.key(), key)
    }
}

/// Why a store operation failed.
#[derive(Debug, PartialEq, Eq)]
pub enum StoreError {
    /// The key is shorter than one byte past the shard prefix.
    KeyTooShort,
    /// A record with this key is stored already.
    AlreadyExists,
    /// No record with this key is stored.
    NotFound,
    /// The stored record's key is not the key it is stored under.
    KeyCheckFailed,
    /// The stored bytes are not an encoding of a record.
    Undecodable,
    /// The stored configuration has a width of zero, or too large a shard prefix.
    BadConfig,
    /// The file system failed, with its message.
    IoError(String),
}

/// Where a leaf file lies under a store's root.
#[derive(Debug, PartialEq, Eq)]
pub struct ShardPath {
    pub dirs: Vec<String>,
    pub file: String,
}

impl View for ShardPath {
    type V = Seq<Seq<char>>;

    open spec fn view(&self) -> Seq<Seq<char>> {
        self.dirs@.map_values(|d: String| d@).push(self.file@)
    }
}

/// A leaf file to create, only if it does not exist, holding `bytes`.
#[derive(Debug, PartialEq, Eq)]
pub struct Write {
    pub path: ShardPath,
    pub bytes: Vec<u8>,
}

/// What creating a leaf file only if absent came to.
#[derive(Debug, PartialEq, Eq)]
pub enum CreateOutcome {
    Created,
    Existed,
    Failed(String),
}

/// The configuration that opening a store with `stored` settles on: the
/// stored one if it is valid, the default where none is stored.
pub open spec fn opened_config(stored: Option<Config>) -> Result<Config, StoreError> {
    match stored {
        None => Ok(Config { shard_width: DEFAULT_WIDTH, shard_levels: DEFAULT_LEVELS }),
        Some(c) => if c.wf() {
            Ok(c)
        } else {
            Err(StoreError::BadConfig)
        },
    }
}

/// The bytes of a leaf file, if there is one.
pub open spec fn bytes_view(contents: Option<&[u8]>) -> Option<Seq<u8>> {
    match contents {
        Some(b) => Some(b@),
        None => None,
    }
}

/// What reading `key` gives when its leaf file holds `contents` (`None`:
/// there is no such file), checking the decoded key when `checked`.
pub open spec fn read_result<T: Triefort>(
    key: Seq<u8>,
    contents: Option<Seq<u8>>,
    checked: bool,
) -> Result<T::V, StoreError> {
    match contents {
        None => Err(StoreError::NotFound),
        Some(b) => match T::decoding(b) {
            None => Err(StoreError::Undecodable),
            Some(v) => if checked && T::key_of(v) != key {
                Err(StoreError::KeyCheckFailed)
            } else {
                Ok(v)
            },
        },
    }
}

/// An open store: its configuration and root directory.
#[derive(Debug)]
pub struct Handle<T> {
    cfg: Config,
    root: String,
    _record: core::marker::PhantomData<T>,
}

/// Opens the store at `root`, given the configuration stored there, if any.
/// Where none is stored, the default is used, and the caller stores it.
pub fn open<T: Triefort>(root: &str, stored: Option<Config>) -> (r: Result<Handle<T>, StoreError>)
    ensures
        r matches Ok(h) ==> opened_config(stored) == Ok::<Config, StoreError>(h.config())
            && h.root_view() == root@,
        r matches Err(e) ==> opened_config(stored) == Err::<Config, StoreError>(e),
        r is Ok <==> opened_config(stored) is Ok,
{
    let cfg = match stored {
        None => Config::default_config(),
        Some(c) => match Config::new(c.shard_width, c.shard_levels) {
            Some(c) => c,
            None => {
                return Err(StoreError::BadConfig);
            },
        },
    };
    Ok(Handle { cfg, root: root.to_owned(), _record: core::marker::PhantomData })
}

impl<T> Handle<T> {
    #[verifier::type_invariant]
    spec fn inv(&self) -> bool {
        self.cfg.wf()
    }
}

impl<T: Triefort> Handle<T> {
    pub closed spec fn config(&self) -> Config {
        self.cfg
    }

    pub closed spec fn root_view(&self) -> Seq<char> {
        self.root@
    }

    pub fn cfg(&self) -> (r: Config)
        ensures
            r == self.config(),
            r.wf(),
    {
        proof {
            use_type_invariant(self);
        }
        self.cfg
    }

    pub fn root(&self) -> (r: &str)
        ensures
            r@ == self.root_view(),
    {
        self.root.as_str()
    }

    /// Where the leaf file of `key` lies under the root.
    pub fn path_for(&self, key: &[u8]) -> (r: ShardPath)
        ensures
            r@ == leaf_path(self.config(), key@),
    {
        proof {
            use_type_invariant(self);
        }
        let dirs = self.cfg.dir_from_key(key);
        let file = to_hex(key);
        ShardPath { dirs, file }
    }

    /// The write that stores `item`: its encoding, in the leaf file of its
    /// key. A key shorter than one byte past the shard prefix is refused.
    pub fn insert(&self, item: &T) -> (r: Result<Write, StoreError>)
        ensures
            T::key_of(item@).len() < self.config().min_key_len() ==> r matches Err(
                StoreError::KeyTooShort,
            ),
            T::key_of(item@).len() >= self.config().min_key_len() ==> (r matches Ok(w) && w.path@
                == leaf_path(self.config(), T::key_of(item@)) && w.bytes@ == T::encoding(item@)),
    {
        proof {
            use_type_invariant(self);
        }
        let k = item.key();
        if k.len() < self.cfg.min_key_size() {
            return Err(StoreError::KeyTooShort);
        }
        let path = self.path_for(k);
        let bytes = item.encode();
        Ok(Write { path, bytes })
    }

    /// The record read for `key`, given the bytes of its leaf file (`None`:
    /// there is no such file). The decoded record must have that key.
    pub fn get(&self, key: &[u8], contents: Option<&[u8]>) -> (r: Result<T, StoreError>)
        ensures
            match read_result::<T>(key@, bytes_view(contents), true) {
                Ok(v) => (r matches Ok(x) && x@ == v),
                Err(e) => r == Err::<T, StoreError>(e),
            },
    {
        let i = self.get_unchecked(key, contents)?;
        if !i.check(key) {
            Err(StoreError::KeyCheckFailed)
        } else {
            Ok(i)
        }
    }

    /// As `get`, without checking the decoded record's key.
    pub fn get_unchecked(&self, key: &[u8], contents: Option<&[u8]>) -> (r: Result<T, StoreError>)
        ensures
            match read_result::<T>(key@, bytes_view(contents), false) {
                Ok(v) => (r matches Ok(x) && x@ == v),
                Err(e) => r == Err::<T, StoreError>(e),
            },
    {
        match contents {
            None => Err(StoreError::NotFound),
            Some(b) => match T::decode(b) {
                Some(i) => Ok(i),
                None => Err(StoreError::Undecodable),
            },
        }
    }

    /// The names among `names` (the files found under the directories of
    /// `prefix`) that are the hexadecimal text of a key this store can hold
    /// and begin with the hexadecimal text of `prefix`, in order. Other files,
    /// such as the configuration, are never keys' text.
    pub fn find_all_with_prefix(&self, prefix: &[u8], names: &Vec<String>) -> (r: Vec<String>)
        ensures
            r@.map_values(|s: String| s@) == names@.map_values(|s: String| s@).filter(
                |n: Seq<char>|
                    is_key_text(n, self.config().min_key_len()) && hex_of(prefix@).is_prefix_of(n),
            ),
    {
        proof {
            use_type_invariant(self);
        }
        let min = self.cfg.min_key_size();
        let hex = to_hex(prefix);
        let ghost pred = |n: Seq<char>|
            is_key_text(n, self.config().min_key_len()) && hex_of(prefix@).is_prefix_of(n);
        let mut r: Vec<String> = Vec::new();
        let mut i: usize = 0;
        while i < names.len()
            invariant
                i <= names@.len(),
                hex@ == hex_of(prefix@),
                min == self.config().min_key_len(),
                pred == (|n: Seq<char>|
                    is_key_text(n, self.config().min_key_len()) && hex_of(prefix@).is_prefix_of(
                        n,
                    )),
                r@.map_values(|s: String| s@) == names@.subrange(0, i as int).map_values(
                    |s: String| s@,
                ).filter(pred),
            decreases names@.len() - i,
        {
            let ghost before = names@.subrange(0, i as int).map_values(|s: String| s@);
            assert(names@.subrange(0, i + 1).map_values(|s: String| s@) =~= before.push(
                names@[i as int]@,
            ));
            assert(before.push(names@[i as int]@).drop_last() =~= before);
            assert(before.push(names@[i as int]@).filter(pred) == if pred(names@[i as int]@) {
                before.filter(pred).push(names@[i as int]@)
            } else {
                before.filter(pred)
            }) by {
                reveal_with_fuel(Seq::filter, 1);
            }
            if key_text(names[i].as_str(), min) && starts_with(names[i].as_str(), hex.as_str()) {
                r.push(names[i].clone());
            }
            assert(r@.map_values(|s: String| s@) =~= names@.subrange(0, i + 1).map_values(
                |s: String| s@,
            ).filter(pred));
            i = i + 1;
        }
        assert(names@.subrange(0, names@.len() as int) =~= names@);
        r
    }
}

/// What creating a leaf file only if absent means for an insert.
pub fn finish_insert(outcome: CreateOutcome) -> (r: Result<(), StoreError>)
    ensures
        outcome is Created ==> r is Ok,
        outcome is Existed ==> r == Err::<(), StoreError>(StoreError::AlreadyExists),
        outcome matches CreateOutcome::Failed(m) ==> r == Err::<(), StoreError>(
            StoreError::IoError(m),
        ),
{
    match outcome {
        CreateOutcome::Created => Ok(()),
        CreateOutcome::Existed => Err(StoreError::AlreadyExists),
        CreateOutcome::Failed(m) => Err(StoreError::IoError(m)),
    }
}


/// A record of raw bytes under a key of its own.
#[derive(Debug, PartialEq, Eq)]
pub struct Entry {
    pub key: Vec<u8>,
    pub value: Vec<u8>,
}

/// An entry's key and value, as values.
pub struct EntryView {
    pub key: Seq<u8>,
    pub value: Seq<u8>,
}

impl View for Entry {
    type V = EntryView;

    open spec fn view(&self) -> EntryView {
        EntryView { key: self.key@, value: self.value@ }
    }
}

impl Triefort for Entry {
    /// The key's length as eight big-endian bytes, the key, then the value.
    open spec fn encoding(v: EntryView) -> Seq<u8> {
        be64(v.key.len() as u64) + v.key + v.value
    }

    open spec fn key_of(v: EntryView) -> Seq<u8> {
        v.key
    }

    open spec fn decoding(b: Seq<u8>) -> Option<EntryView> {
        if b.len() >= 8 && from_be64(b) <= b.len() - 8 {
            Some(
                EntryView {
                    key: b.subrange(8, 8 + from_be64(b)),
                    value: b.subrange(8 + from_be64(b), b.len() as int),
                },
            )
        } else {
            None
        }
    }

    open spec fn encodable(v: EntryView) -> bool {
        v.key.len() <= u64::MAX
    }

    proof fn lemma_round_trip(v: EntryView) {
        let b = Self::encoding(v);
        lemma_be64_round_trip(v.key.len() as u64);
        assert(b.subrange(0, 8) =~= be64(v.key.len() as u64));
        assert(from_be64(b) == from_be64(b.subrange(0, 8)));
        assert(b.subrange(8, 8 + v.key.len() as int) =~= v.key);
        assert(b.subrange(8 + v.key.len() as int, b.len() as int) =~= v.value);
    }

    fn key(&self) -> (r: &[u8]) {
        self.key.as_slice()
    }

    fn encode(&self) -> (r: Vec<u8>) {
        let mut v: Vec<u8> = Vec::new();
        push_be64(&mut v, self.key.len() as u64);
        push_all(&mut v, self.key.as_slice());
        push_all(&mut v, self.value.as_slice());
        assert(v@ =~= Self::encoding(self@));
        v
    }

    fn decode(enc: &[u8]) -> (r: Option<Entry>) {
        let n = enc.len();
        if n < 8 {
            return None;
        }
        let k = read_be64(enc, 0);
        assert(from_be64(enc@.subrange(0, 8)) == from_be64(enc@));
        if k > (n - 8) as u64 {
            return None;
        }
        let end = 8 + k as usize;
        Some(Entry { key: copy_range(enc, 8, end), value: copy_range(enc, end, n) })
    }
}

/// A store's leaf files: the bytes at each path under its root.
pub type Disk = Map<Seq<Seq<char>>, Seq<u8>>;

/// Inserting the record `v` into a store with configuration `cfg` whose leaf
/// files are `disk`: the write that `insert` plans, made by creating the leaf
/// file only if it is absent, as `finish_insert` reads the outcome. Gives the
/// result and the leaf files after.
pub open spec fn insert_on<T: Triefort>(cfg: Config, disk: Disk, v: T::V) -> (
    Result<(), StoreError>,
    Disk,
) {
    let k = T::key_of(v);
    if k.len() < cfg.min_key_len() {
        (Err(StoreError::KeyTooShort), disk)
    } else if disk.contains_key(leaf_path(cfg, k)) {
        (Err(StoreError::AlreadyExists), disk)
    } else {
        (Ok(()), disk.insert(leaf_path(cfg, k), T::encoding(v)))
    }
}

/// Reading `key` from a store with configuration `cfg` whose leaf files are
/// `disk`, as `get` does with the leaf file at `path_for(key)`.
pub open spec fn get_on<T: Triefort>(cfg: Config, disk: Disk, key: Seq<u8>) -> Result<
    T::V,
    StoreError,
> {
    let p = leaf_path(cfg, key);
    read_result::<T>(key, if disk.contains_key(p) {
        Some(disk[p])
    } else {
        None
    }, true)
}

/// Inserting a record a second time fails with `AlreadyExists` (where its key
/// is long enough) and leaves the leaf files as the first insert left them.
pub proof fn lemma_insert_is_write_once<T: Triefort>(cfg: Config, disk: Disk, v: T::V)
    ensures
        ({
            let first = insert_on::<T>(cfg, disk, v);
            let second = insert_on::<T>(cfg, first.1, v);
            &&& T::key_of(v).len() >= cfg.min_key_len() ==> second.0 == Err::<(), StoreError>(
                StoreError::AlreadyExists,
            )
            &&& second.1 == first.1
        }),
{
}

/// A record that was inserted is read back under its key.
pub proof fn lemma_insert_then_get<T: Triefort>(cfg: Config, disk: Disk, v: T::V)
    requires
        T::encodable(v),
        insert_on::<T>(cfg, disk, v).0 is Ok,
    ensures
        get_on::<T>(cfg, insert_on::<T>(cfg, disk, v).1, T::key_of(v)) == Ok::<T::V, StoreError>(
            v,
        ),
{
    T::lemma_round_trip(v);
}

/// A record whose key is shorter than one byte past the shard prefix is
/// refused with `KeyTooShort`, and the leaf files stay as they were.
pub proof fn lemma_short_key_refused<T: Triefort>(cfg: Config, disk: Disk, v: T::V)
    requires
        T::key_of(v).len() < cfg.min_key_len(),
    ensures
        insert_on::<T>(cfg, disk, v) == (Err::<(), StoreError>(StoreError::KeyTooShort), disk),
{
}

/// The name of every leaf file that `insert` writes passes the key-text test
/// of the prefix search, so the search misses no stored record.
pub proof fn lemma_leaf_name_is_key_text(cfg: Config, key: Seq<u8>)
    requires
        key.len() >= cfg.min_key_len(),
    ensures
        is_key_text(leaf_path(cfg, key).last(), cfg.min_key_len()),
{
    crate::hex::lemma_hex_is_key_text(key, cfg.min_key_len());
}

/// Distinct keys have distinct leaf files: the file is named by the whole key.
pub proof fn lemma_distinct_keys_distinct_paths(cfg: Config, k1: Seq<u8>, k2: Seq<u8>)
    requires
        k1 != k2,
    ensures
        leaf_path(cfg, k1) != leaf_path(cfg, k2),
{
    if leaf_path(cfg, k1) == leaf_path(cfg, k2) {
        assert(leaf_path(cfg, k1).last() == hex_of(k1));
        assert(leaf_path(cfg, k2).last() == hex_of(k2));
        lemma_hex_injective(k1, k2);
    }
}

/// Inserting a record leaves what every other key reads as it was.
pub proof fn lemma_insert_keeps_other_keys<T: Triefort>(
    cfg: Config,
    disk: Disk,
    v: T::V,
    key: Seq<u8>,
)
    requires
        key != T::key_of(v),
    ensures
        get_on::<T>(cfg, insert_on::<T>(cfg, disk, v).1, key) == get_on::<T>(cfg, disk, key),
{
    lemma_distinct_keys_distinct_paths(cfg, key, T::key_of(v));
}

/// Opening a store again, with the configuration that the first opening
/// settled on (stored, or written as the default), gives the same
/// configuration.
pub proof fn lemma_reopen_same_config(stored: Option<Config>)
    requires
        opened_config(stored) is Ok,
    ensures
        opened_config(Some(opened_config(stored)->Ok_0)) == opened_config(stored),
{
}

} // verus!
