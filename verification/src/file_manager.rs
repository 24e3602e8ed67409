//! The durable record store.
//!
//! `FileManager` owns a root directory path and a table of named records,
//! each an opaque byte blob. Its contents are modelled as a map from record
//! name to content; every operation states exactly how that map changes and
//! which error it reports on which inputs. The unverified shell mirrors each
//! successful operation onto one file per record under the root directory,
//! at the path this module constructs.

use crate::error::StoreError;
use crate::names::{is_valid_record_name, valid_record_name};
use vstd::prelude::*;
use vstd::slice::slice_to_vec;
use vstd::string::{StrSliceExecFns, StringExecFns};

verus! {

/// One named record: an opaque byte blob under a validated name.
pub struct Record {
    name: String,
    content: Vec<u8>,
}

/// The record store: a root directory path and the records under it.
pub struct FileManager {
    db_path: String,
    records: Vec<Record>,
}

/// The contents of a record table, read as a map from name to content.
/// A later entry for the same name shadows an earlier one; the store's
/// invariant keeps names distinct, so no shadowing ever arises.
spec fn records_map(rs: Seq<Record>) -> Map<Seq<char>, Seq<u8>>
    decreases rs.len(),
{
    if rs.len() == 0 {
        Map::empty()
    } else {
        records_map(rs.drop_last()).insert(rs.last().name@, rs.last().content@)
    }
}

spec fn names_distinct(rs: Seq<Record>) -> bool {
    forall|i: int, j: int| 0 <= i < j < rs.len() ==> rs[i].name@ != rs[j].name@
}

spec fn names_valid(rs: Seq<Record>) -> bool {
    forall|i: int| 0 <= i < rs.len() ==> valid_record_name(#[trigger] rs[i].name@)
}

/// What a read of `name` finds in contents `m`: the stored bytes, or
/// nothing when the name has never been written.
pub open spec fn lookup(m: Map<Seq<char>, Seq<u8>>, name: Seq<char>) -> Option<Seq<u8>> {
    if m.contains_key(name) {
        Some(m[name])
    } else {
        None
    }
}

/// The contents after creating `name`: untouched when the record already
/// exists (create never truncates), an empty record otherwise.
pub open spec fn with_created(m: Map<Seq<char>, Seq<u8>>, name: Seq<char>) -> Map<
    Seq<char>,
    Seq<u8>,
> {
    if m.contains_key(name) {
        m
    } else {
        m.insert(name, Seq::empty())
    }
}

impl View for FileManager {
    type V = Map<Seq<char>, Seq<u8>>;

    closed spec fn view(&self) -> Map<Seq<char>, Seq<u8>> {
        records_map(self.records@)
    }
}

proof fn lemma_records_map_domain(rs: Seq<Record>, name: Seq<char>)
    ensures
        records_map(rs).contains_key(name) <==> exists|i: int|
            0 <= i < rs.len() && rs[i].name@ == name,
    decreases rs.len(),
{
    if rs.len() > 0 {
        let prefix = rs.drop_last();
        lemma_records_map_domain(prefix, name);
        if rs.last().name@ == name {
            assert(rs[rs.len() - 1].name@ == name);
        } else {
            if records_map(rs).contains_key(name) {
                let i = choose|i: int| 0 <= i < prefix.len() && prefix[i].name@ == name;
                assert(rs[i].name@ == name);
            }
            if exists|i: int| 0 <= i < rs.len() && rs[i].name@ == name {
                let i = choose|i: int| 0 <= i < rs.len() && rs[i].name@ == name;
                assert(prefix[i].name@ == name);
            }
        }
    }
}

proof fn lemma_records_map_value(rs: Seq<Record>, i: int)
    requires
        names_distinct(rs),
        0 <= i < rs.len(),
    ensures
        records_map(rs).contains_key(rs[i].name@),
        records_map(rs)[rs[i].name@] == rs[i].content@,
    decreases rs.len(),
{
    let prefix = rs.drop_last();
    if i == rs.len() - 1 {
    } else {
        assert(names_distinct(prefix));
        assert(prefix[i] == rs[i]);
        lemma_records_map_value(prefix, i);
        assert(rs.last().name@ != rs[i].name@);
    }
}

proof fn lemma_records_map_push(rs: Seq<Record>, r: Record)
    ensures
        records_map(rs.push(r)) == records_map(rs).insert(r.name@, r.content@),
{
    assert(rs.push(r).drop_last() =~= rs);
    assert(rs.push(r).last() == r);
}

proof fn lemma_records_map_remove(rs: Seq<Record>, i: int)
    requires
        names_distinct(rs),
        0 <= i < rs.len(),
    ensures
        records_map(rs.remove(i)) == records_map(rs).remove(rs[i].name@),
    decreases rs.len(),
{
    let prefix = rs.drop_last();
    let name = rs[i].name@;
    if i == rs.len() - 1 {
        lemma_records_map_domain(prefix, name);
        assert(forall|j: int| 0 <= j < prefix.len() ==> #[trigger] prefix[j].name@ != name);
        assert(!records_map(prefix).contains_key(name));
        assert(rs.remove(i) =~= prefix);
        assert(records_map(prefix) =~= records_map(prefix).insert(
            name,
            rs.last().content@,
        ).remove(name));
    } else {
        assert(names_distinct(prefix));
        assert(prefix[i] == rs[i]);
        lemma_records_map_remove(prefix, i);
        assert(rs.remove(i).drop_last() =~= prefix.remove(i));
        assert(rs.remove(i).last() == rs.last());
        let last_name = rs.last().name@;
        assert(last_name != name);
        assert(records_map(rs.remove(i)) == records_map(prefix.remove(i)).insert(
            last_name,
            rs.last().content@,
        ));
        assert(records_map(prefix).remove(name).insert(last_name, rs.last().content@)
            =~= records_map(prefix).insert(last_name, rs.last().content@).remove(name));
    }
}

/// Compares two strings character by character.
fn str_eq(a: &str, b: &str) -> (r: bool)
    ensures
        r == (a@ == b@),
{
    let la: usize = a.unicode_len();
    let lb: usize = b.unicode_len();
    if la != lb {
        return false;
    }
    let mut i: usize = 0;
    while i < la
        invariant
            0 <= i <= la,
            la == a@.len(),
            la == b@.len(),
            forall|j: int| 0 <= j < i ==> a@[j] == b@[j],
        decreases la - i,
    {
        let ca = a.get_char(i);
        let cb = b.get_char(i);
        if ca != cb {
            return false;
        }
        i += 1;
    }
    proof {
        assert(a@ =~= b@);
    }
    true
}

impl FileManager {
    /// The store's contents are well formed: the root path is usable and
    /// every record carries a distinct, path-safe name.
    pub closed spec fn wf(&self) -> bool {
        &&& self.db_path@.len() > 0
        &&& names_distinct(self.records@)
        &&& names_valid(self.records@)
    }

    /// The root directory path this store was opened at.
    pub closed spec fn root(&self) -> Seq<char> {
        self.db_path@
    }

    /// Opens a store over the given root directory path. The path only
    /// needs to name a directory; the unverified shell creates the
    /// directory (with any missing ancestors) before relying on it.
    pub fn new(db_path: &str) -> (r: Result<FileManager, StoreError>)
        ensures
            match r {
                Ok(fm) => db_path@.len() > 0 && fm.wf() && fm@ == Map::<Seq<char>, Seq<u8>>::empty()
                    && fm.root() == db_path@,
                Err(e) => e == StoreError::DirectoryUnavailable && db_path@.len() == 0,
            },
    {
        if db_path.is_empty() {
            return Err(StoreError::DirectoryUnavailable);
        }
        let fm = FileManager { db_path: db_path.to_owned(), records: Vec::new() };
        proof {
            assert(fm@ =~= Map::<Seq<char>, Seq<u8>>::empty());
        }
        Ok(fm)
    }

    /// The index of the record named `file_name`, if one exists.
    fn find_record(&self, file_name: &str) -> (r: Option<usize>)
        ensures
            match r {
                Some(i) => i < self.records@.len() && self.records@[i as int].name@ == file_name@
                    && self@.contains_key(file_name@),
                None => !self@.contains_key(file_name@),
            },
    {
        let n: usize = self.records.len();
        let mut i: usize = 0;
        while i < n
            invariant
                0 <= i <= n,
                n == self.records@.len(),
                forall|j: int| 0 <= j < i ==> #[trigger] self.records@[j].name@ != file_name@,
            decreases n - i,
        {
            if str_eq(self.records[i].name.as_str(), file_name) {
                proof {
                    lemma_records_map_domain(self.records@, file_name@);
                }
                return Some(i);
            }
            i += 1;
        }
        proof {
            lemma_records_map_domain(self.records@, file_name@);
        }
        None
    }

    /// Reads the full current content of the record named `file_name`.
    /// An invalid name is rejected outright; a valid name that was never
    /// written reports `RecordNotFound`.
    pub fn read_from_file(&self, file_name: &str) -> (r: Result<Vec<u8>, StoreError>)
        requires
            self.wf(),
        ensures
            match r {
                Ok(c) => valid_record_name(file_name@) && lookup(self@, file_name@) == Some(c@),
                Err(e) => match e {
                    StoreError::RecordNotFound => valid_record_name(file_name@) && lookup(
                        self@,
                        file_name@,
                    ) is None,
                    StoreError::RecordAccessError => !valid_record_name(file_name@),
                    StoreError::DirectoryUnavailable => false,
                },
            },
    {
        if !is_valid_record_name(file_name) {
            return Err(StoreError::RecordAccessError);
        }
        match self.find_record(file_name) {
            Some(i) => {
                proof {
                    lemma_records_map_value(self.records@, i as int);
                }
                Ok(slice_to_vec(self.records[i].content.as_slice()))
            },
            None => Err(StoreError::RecordNotFound),
        }
    }

    /// Fully replaces the content of the record named `file_name`,
    /// creating the record if it does not exist yet.
    pub fn write_to_file(&mut self, file_name: &str, content: &[u8]) -> (r: Result<
        (),
        StoreError,
    >)
        requires
            old(self).wf(),
        ensures
            final(self).wf(),
            final(self).root() == old(self).root(),
            match r {
                Ok(_) => valid_record_name(file_name@) && final(self)@ == old(self)@.insert(
                    file_name@,
                    content@,
                ),
                Err(e) => e == StoreError::RecordAccessError && !valid_record_name(file_name@)
                    && final(self)@ == old(self)@,
            },
    {
        if !is_valid_record_name(file_name) {
            return Err(StoreError::RecordAccessError);
        }
        let record = Record { name: file_name.to_owned(), content: slice_to_vec(content) };
        let ghost rs0 = self.records@;
        match self.find_record(file_name) {
            Some(i) => {
                proof {
                    lemma_records_map_remove(rs0, i as int);
                    rs0.remove_ensures(i as int);
                }
                self.records.remove(i);
                proof {
                    assert(names_distinct(self.records@));
                    assert(names_valid(self.records@));
                    assert(forall|j: int|
                        0 <= j < self.records@.len() ==> #[trigger] self.records@[j].name@
                            != file_name@);
                    lemma_records_map_domain(self.records@, file_name@);
                    lemma_records_map_push(self.records@, record);
                }
                self.records.push(record);
                proof {
                    assert(self@ =~= old(self)@.insert(file_name@, content@));
                }
                Ok(())
            },
            None => {
                proof {
                    lemma_records_map_domain(rs0, file_name@);
                    lemma_records_map_push(rs0, record);
                }
                self.records.push(record);
                Ok(())
            },
        }
    }

    /// Opens the record named `file_name`, creating it empty when absent;
    /// an existing record's content is left untouched.
    pub fn create_file(&mut self, file_name: &str) -> (r: Result<(), StoreError>)
        requires
            old(self).wf(),
        ensures
            final(self).wf(),
            final(self).root() == old(self).root(),
            match r {
                Ok(_) => valid_record_name(file_name@) && final(self)@ == with_created(
                    old(self)@,
                    file_name@,
                ),
                Err(e) => e == StoreError::RecordAccessError && !valid_record_name(file_name@)
                    && final(self)@ == old(self)@,
            },
    {
        if !is_valid_record_name(file_name) {
            return Err(StoreError::RecordAccessError);
        }
        match self.find_record(file_name) {
            Some(_) => Ok(()),
            None => {
                let record = Record { name: file_name.to_owned(), content: Vec::new() };
                proof {
                    lemma_records_map_domain(self.records@, file_name@);
                    lemma_records_map_push(self.records@, record);
                }
                self.records.push(record);
                Ok(())
            },
        }
    }

    /// A write through the temporary-file-plus-rename strategy: `io_ok`
    /// reports whether the temporary sibling file was fully written and
    /// durably renamed into place. Only then is the record replaced; a
    /// failed attempt leaves the prior content (or the record's absence)
    /// exactly as it was.
    pub fn atomic_write(&mut self, file_name: &str, content: &[u8], io_ok: bool) -> (r: Result<
        (),
        StoreError,
    >)
        requires
            old(self).wf(),
        ensures
            final(self).wf(),
            final(self).root() == old(self).root(),
            match r {
                Ok(_) => io_ok && valid_record_name(file_name@) && final(self)@ == old(
                    self,
                )@.insert(file_name@, content@),
                Err(e) => e == StoreError::RecordAccessError && !(io_ok && valid_record_name(
                    file_name@,
                )) && final(self)@ == old(self)@,
            },
    {
        if !is_valid_record_name(file_name) {
            return Err(StoreError::RecordAccessError);
        }
        if !io_ok {
            return Err(StoreError::RecordAccessError);
        }
        self.write_to_file(file_name, content)
    }

    /// Registers a record found under the root when the store was opened;
    /// the shell calls this once per existing file. A file whose name the
    /// store would never have produced is rejected and left to the shell.
    pub fn load_record(&mut self, file_name: &str, content: &[u8]) -> (r: Result<(), StoreError>)
        requires
            old(self).wf(),
            !old(self)@.contains_key(file_name@),
        ensures
            final(self).wf(),
            final(self).root() == old(self).root(),
            match r {
                Ok(_) => valid_record_name(file_name@) && final(self)@ == old(self)@.insert(
                    file_name@,
                    content@,
                ),
                Err(e) => e == StoreError::RecordAccessError && !valid_record_name(file_name@)
                    && final(self)@ == old(self)@,
            },
    {
        self.write_to_file(file_name, content)
    }

    /// The path of the backing file for `file_name`: the record's name
    /// joined directly under the root directory.
    pub fn record_path(&self, file_name: &str) -> (r: String)
        requires
            self.wf(),
            valid_record_name(file_name@),
        ensures
            r@ == self.root() + seq!['/'] + file_name@,
    {
        let mut p = self.db_path.clone();
        p.append("/");
        p.append(file_name);
        proof {
            reveal_strlit("/");
            assert(p@ =~= self.root() + seq!['/'] + file_name@);
        }
        p
    }

    /// The path of the temporary sibling file an atomic write goes
    /// through before being renamed over the record's backing file.
    pub fn temp_record_path(&self, file_name: &str) -> (r: String)
        requires
            self.wf(),
            valid_record_name(file_name@),
        ensures
            r@ == self.root() + seq!['/'] + file_name@ + seq!['.', 't', 'm', 'p'],
    {
        let mut p = self.record_path(file_name);
        p.append(".tmp");
        proof {
            reveal_strlit(".tmp");
            assert(p@ =~= self.root() + seq!['/'] + file_name@ + seq!['.', 't', 'm', 'p']);
        }
        p
    }
}

/// Law: writing a record and then reading the same name yields exactly
/// the bytes that were written.
pub proof fn lemma_write_then_read(m: Map<Seq<char>, Seq<u8>>, name: Seq<char>, content: Seq<u8>)
    ensures
        lookup(m.insert(name, content), name) == Some(content),
{
}

/// Law: creating a record is idempotent — a second create finds the record
/// in place and leaves the contents exactly as after the first.
pub proof fn lemma_create_idempotent(m: Map<Seq<char>, Seq<u8>>, name: Seq<char>)
    ensures
        with_created(with_created(m, name), name) == with_created(m, name),
{
    assert(with_created(m, name).contains_key(name));
}

/// Law: a name that is no key of the store's contents — one never written
/// and never loaded — reads as no record at all.
pub proof fn lemma_read_unwritten(m: Map<Seq<char>, Seq<u8>>, name: Seq<char>)
    requires
        !m.contains_key(name),
    ensures
        lookup(m, name) is None,
{
}

/// Law: a write fully replaces a record — after two writes to one name,
/// a read returns the second content with no residue of the first.
pub proof fn lemma_overwrite(
    m: Map<Seq<char>, Seq<u8>>,
    name: Seq<char>,
    first: Seq<u8>,
    second: Seq<u8>,
)
    ensures
        lookup(m.insert(name, first).insert(name, second), name) == Some(second),
{
}

} // verus!
