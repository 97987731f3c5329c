//! The authoritative store: an on-disk (or in-memory) keyed table whose sole
//! query is point lookup by address. Ingestion populates it exactly once;
//! afterwards the key set is immutable. The table is held behind trusted
//! wrappers over the `rusqlite` connection; its contents are modelled as a
//! finite map from address to optional balance.

use vstd::prelude::*;
use crate::parse::{spec_parse_line, parse_line};

verus! {

#[verifier::external_type_specification]
#[verifier::external_body]
pub struct ExConnection(rusqlite::Connection);

#[verifier::external_type_specification]
#[verifier::external_body]
pub struct ExSqlError(rusqlite::Error);

/// The rows of the address table as this connection observes them: a map
/// from address to the stored optional balance. Every connection the library
/// opens is in exclusive locking mode (in-memory databases are private to
/// their connection anyway), so from its first successful operation onward a
/// connection holds its file lock until close: no other connection — of this
/// library or of another process — can change the rows behind its back, and
/// an operation that cannot pin that view fails instead of observing
/// anything. The rows are therefore a function of the handle, changed only
/// through the `&mut` wrappers below.
pub uninterp spec fn table_map(c: rusqlite::Connection) -> Map<Seq<char>, Option<i64>>;

/// The rows as they stood when the connection's open transaction began, or
/// the rows themselves while no transaction is open: what a rollback
/// restores.
pub uninterp spec fn txn_base(c: rusqlite::Connection) -> Map<Seq<char>, Option<i64>>;

/// Error of the library for a failed store operation. A failed authoritative
/// lookup is never downgraded to a miss; it is surfaced through this type.
#[derive(Clone, Copy, Debug, PartialEq, Eq, Structural)]
pub struct StoreError;

/// Relies on rusqlite::Connection::open, and on pragma_update setting
/// `locking_mode=EXCLUSIVE`: the connection never releases a file lock once
/// taken, so after its first successful read it holds at least a shared lock
/// until close and no writer can change the rows it observes; after its
/// first write it holds the exclusive lock and no other connection can even
/// read. An operation that cannot take its lock returns an error instead. A
/// database table always holds finitely many rows.
#[verifier::external_body]
fn conn_open(path: &str) -> (r: Result<rusqlite::Connection, rusqlite::Error>)
    ensures
        r matches Ok(c) ==> table_map(c).dom().finite(),
{
    let conn = rusqlite::Connection::open(path)?;
    conn.pragma_update(None, "locking_mode", "EXCLUSIVE")?;
    Ok(conn)
}

/// Relies on rusqlite::Connection::open_with_flags with the read-only flag,
/// and on pragma_update setting `locking_mode=EXCLUSIVE`: the connection can
/// never write, and from its first successful read it holds its shared lock
/// until close, so no writer can change the rows it observes; read-only
/// connections' shared locks coexist, so several workers can look up
/// concurrently. A database table always holds finitely many rows.
#[verifier::external_body]
fn conn_open_read_only(path: &str) -> (r: Result<rusqlite::Connection, rusqlite::Error>)
    ensures
        r matches Ok(c) ==> table_map(c).dom().finite(),
{
    let conn = rusqlite::Connection::open_with_flags(
        path,
        rusqlite::OpenFlags::SQLITE_OPEN_READ_ONLY,
    )?;
    conn.pragma_update(None, "locking_mode", "EXCLUSIVE")?;
    Ok(conn)
}

/// Relies on rusqlite::Connection::open_in_memory, and on execute running
/// `CREATE TABLE`: a fresh in-memory database holds nothing, so its newly
/// created address table has no rows at all.
#[verifier::external_body]
fn conn_open_memory() -> (r: Result<rusqlite::Connection, rusqlite::Error>)
    ensures
        r matches Ok(c) ==> table_map(c).dom().finite() && table_map(c).dom().len() == 0,
{
    let conn = rusqlite::Connection::open_in_memory()?;
    conn.execute("CREATE TABLE addresses (address TEXT PRIMARY KEY, balance INTEGER)", ())?;
    Ok(conn)
}

/// Relies on rusqlite::Connection::execute running `CREATE TABLE IF NOT
/// EXISTS`: afterwards the address table exists; existing rows are kept, and
/// the rows stay finitely many.
#[verifier::external_body]
fn conn_init_schema(c: &mut rusqlite::Connection) -> (r: Result<(), rusqlite::Error>)
    ensures
        table_map(*final(c)).dom().finite(),
{
    let sql = "CREATE TABLE IF NOT EXISTS addresses (address TEXT PRIMARY KEY, balance INTEGER)";
    match c.execute(sql, ()) {
        Ok(_) => Ok(()),
        Err(e) => Err(e),
    }
}

/// Relies on rusqlite::Connection::execute running `BEGIN`: opening a
/// transaction changes no rows, and marks the current rows as what a
/// rollback would restore.
#[verifier::external_body]
fn conn_begin(c: &mut rusqlite::Connection) -> (r: Result<(), rusqlite::Error>)
    ensures
        table_map(*final(c)) == table_map(*old(c)),
        r matches Ok(_) ==> txn_base(*final(c)) == table_map(*old(c)),
{
    match c.execute("BEGIN", ()) {
        Ok(_) => Ok(()),
        Err(e) => Err(e),
    }
}

/// Relies on rusqlite::Connection::execute running `ROLLBACK`: the open
/// transaction's changes are discarded and the rows return to what they were
/// at `BEGIN`. When an earlier failure already rolled the transaction back,
/// the rows already stand there and the statement's own harmless error is
/// ignored.
#[verifier::external_body]
fn conn_rollback(c: &mut rusqlite::Connection)
    ensures
        table_map(*final(c)) == txn_base(*old(c)),
{
    let _ = c.execute("ROLLBACK", ());
}

/// Relies on rusqlite::Connection::execute running `COMMIT`: a successful
/// commit makes the rows durable and changes none of them. A failing commit
/// either leaves the transaction open or has already rolled it back to its
/// base; either way what a rollback restores is unchanged.
#[verifier::external_body]
fn conn_commit(c: &mut rusqlite::Connection) -> (r: Result<(), rusqlite::Error>)
    ensures
        r matches Ok(_) ==> table_map(*final(c)) == table_map(*old(c)),
        r matches Err(_) ==> txn_base(*final(c)) == txn_base(*old(c)),
{
    match c.execute("COMMIT", ()) {
        Ok(_) => Ok(()),
        Err(e) => Err(e),
    }
}

/// Relies on rusqlite::Connection::execute running `INSERT OR IGNORE`: a row
/// whose key is already present is left as it is (the first inserted row
/// wins); otherwise the new row is added. A failing statement either changes
/// no rows or — on a disk-full or I/O error inside an explicit transaction —
/// cancels the whole transaction, reverting the rows to its base; either
/// way, what a rollback would restore is unmoved.
#[verifier::external_body]
fn conn_insert(c: &mut rusqlite::Connection, address: &str, balance: Option<i64>) -> (r: Result<
    (),
    rusqlite::Error,
>)
    ensures
        txn_base(*final(c)) == txn_base(*old(c)),
        r matches Ok(_) ==> table_map(*final(c)) == (if table_map(*old(c)).dom().contains(
            address@,
        ) {
            table_map(*old(c))
        } else {
            table_map(*old(c)).insert(address@, balance)
        }),
        r matches Err(_) ==> table_map(*final(c)) == table_map(*old(c)) || table_map(*final(c))
            == txn_base(*old(c)),
{
    let sql = "INSERT OR IGNORE INTO addresses (address, balance) VALUES (?1, ?2)";
    match c.execute(sql, (address, balance)) {
        Ok(_) => Ok(()),
        Err(e) => Err(e),
    }
}

/// Relies on rusqlite::Connection::execute running `CREATE INDEX IF NOT
/// EXISTS` on the key column: building an index changes no rows.
#[verifier::external_body]
fn conn_create_index(c: &mut rusqlite::Connection) -> (r: Result<(), rusqlite::Error>)
    ensures
        table_map(*final(c)) == table_map(*old(c)),
{
    let sql = "CREATE INDEX IF NOT EXISTS idx_address ON addresses (address)";
    match c.execute(sql, ()) {
        Ok(_) => Ok(()),
        Err(e) => Err(e),
    }
}

/// Relies on rusqlite::Connection::query_row running `SELECT COUNT(*)`: the
/// key column is the primary key, so the row count is the number of distinct
/// addresses.
#[verifier::external_body]
fn conn_count(c: &rusqlite::Connection) -> (r: Result<i64, rusqlite::Error>)
    ensures
        r matches Ok(n) ==> n == table_map(*c).dom().len(),
{
    c.query_row("SELECT COUNT(*) FROM addresses", (), |row| row.get(0))
}

/// Relies on rusqlite::Connection::query_row running a point lookup on the
/// primary key: at most one row matches; `QueryReturnedNoRows` means the key
/// is absent, and a returned row carries the stored optional balance.
#[verifier::external_body]
fn conn_lookup(c: &rusqlite::Connection, address: &str) -> (r: Result<
    Option<Option<i64>>,
    rusqlite::Error,
>)
    ensures
        r matches Ok(o) ==> o == (if table_map(*c).dom().contains(address@) {
            Some(table_map(*c)[address@])
        } else {
            None::<Option<i64>>
        }),
{
    let sql = "SELECT balance FROM addresses WHERE address = ?1";
    match c.query_row(sql, (address,), |row| row.get(0)) {
        Ok(b) => Ok(Some(b)),
        Err(rusqlite::Error::QueryReturnedNoRows) => Ok(None),
        Err(e) => Err(e),
    }
}

/// Relies on rusqlite::Statement::query_map running `SELECT address`: every
/// distinct address of the table is returned exactly once.
#[verifier::external_body]
pub(crate) fn conn_keys(c: &rusqlite::Connection) -> (r: Result<Vec<String>, rusqlite::Error>)
    ensures
        r matches Ok(v) ==> v.deep_view().to_set() == table_map(*c).dom()
            && v.deep_view().no_duplicates(),
{
    let mut stmt = c.prepare("SELECT address FROM addresses")?;
    let rows = stmt.query_map((), |row| row.get(0))?;
    let mut out: Vec<String> = Vec::new();
    for row in rows {
        out.push(row?);
    }
    Ok(out)
}

/// An optional required address prefix: ingestion keeps only addresses that
/// start with it (for example one version-byte encoding), or every address
/// when no prefix is required.
pub struct PrefixPolicy {
    pub required: Option<String>,
}

pub open spec fn spec_policy(p: PrefixPolicy) -> Option<Seq<char>> {
    match p.required {
        Some(s) => Some(s@),
        None => None,
    }
}

/// Whether an address passes the prefix policy.
pub open spec fn spec_accepts(p: Option<Seq<char>>, a: Seq<char>) -> bool {
    match p {
        None => true,
        Some(pre) => pre.len() <= a.len() && a.take(pre.len() as int) == pre,
    }
}

impl PrefixPolicy {
    /// Tests an address against the policy.
    pub fn accepts(&self, address: &str) -> (r: bool)
        ensures
            r == spec_accepts(spec_policy(*self), address@),
    {
        match &self.required {
            None => true,
            Some(pre) => {
                let pn: usize = pre.as_str().unicode_len();
                let an: usize = address.unicode_len();
                if pn > an {
                    assert(!spec_accepts(spec_policy(*self), address@));
                    return false;
                }
                let mut k: usize = 0;
                while k < pn
                    invariant
                        0 <= k <= pn <= an,
                        pn == pre@.len(),
                        an == address@.len(),
                        self.required matches Some(q) && q@ == pre@,
                        forall|j: int| 0 <= j < k ==> address@[j] == pre@[j],
                    decreases pn - k,
                {
                    if address.get_char(k) != pre.as_str().get_char(k) {
                        assert(address@.take(pre@.len() as int)[k as int] != pre@[k as int]);
                        return false;
                    }
                    k = k + 1;
                }
                assert(address@.take(pre@.len() as int) =~= pre@);
                true
            },
        }
    }
}

/// The effect of one line on the store contents being built: a well-formed
/// line whose address passes the policy and is not yet present inserts its
/// record; every other line changes nothing.
pub open spec fn spec_ingest_one(
    m: Map<Seq<char>, Option<i64>>,
    p: Option<Seq<char>>,
    line: Seq<char>,
) -> Map<Seq<char>, Option<i64>> {
    match spec_parse_line(line) {
        Some(rec) => if spec_accepts(p, rec.0) && !m.dom().contains(rec.0) {
            m.insert(rec.0, rec.1)
        } else {
            m
        },
        None => m,
    }
}

/// The store contents after streaming every line, in order, into `m`.
pub open spec fn spec_ingest_lines(
    m: Map<Seq<char>, Option<i64>>,
    p: Option<Seq<char>>,
    lines: Seq<Seq<char>>,
) -> Map<Seq<char>, Option<i64>>
    decreases lines.len(),
{
    if lines.len() == 0 {
        m
    } else {
        spec_ingest_lines(spec_ingest_one(m, p, lines[0]), p, lines.skip(1))
    }
}

/// What ingestion leaves in the store: a non-empty store is left untouched
/// (idempotent bootstrap); an empty one is loaded from the lines.
pub open spec fn spec_ingest(
    m: Map<Seq<char>, Option<i64>>,
    p: Option<Seq<char>>,
    lines: Seq<Seq<char>>,
) -> Map<Seq<char>, Option<i64>> {
    if m.dom().len() > 0 {
        m
    } else {
        spec_ingest_lines(m, p, lines)
    }
}

/// Appending one line to the stream folds it into the result last.
pub proof fn lemma_ingest_lines_snoc(
    m: Map<Seq<char>, Option<i64>>,
    p: Option<Seq<char>>,
    lines: Seq<Seq<char>>,
)
    requires
        lines.len() > 0,
    ensures
        spec_ingest_lines(m, p, lines) == spec_ingest_one(
            spec_ingest_lines(m, p, lines.drop_last()),
            p,
            lines.last(),
        ),
    decreases lines.len(),
{
    let m1 = spec_ingest_one(m, p, lines[0]);
    if lines.len() == 1 {
        assert(lines.drop_last() =~= Seq::<Seq<char>>::empty());
        assert(lines.skip(1) =~= Seq::<Seq<char>>::empty());
        assert(spec_ingest_lines(m1, p, lines.skip(1)) == m1);
        assert(spec_ingest_lines(m, p, lines) == m1);
    } else {
        assert(lines.drop_last()[0] == lines[0]);
        assert(lines.skip(1).drop_last() =~= lines.drop_last().skip(1));
        assert(lines.skip(1).last() == lines.last());
        lemma_ingest_lines_snoc(m1, p, lines.skip(1));
        assert(spec_ingest_lines(m, p, lines) == spec_ingest_lines(m1, p, lines.skip(1)));
        assert(spec_ingest_lines(m, p, lines.drop_last()) == spec_ingest_lines(
            m1,
            p,
            lines.drop_last().skip(1),
        ));
    }
}

/// Streaming lines never loses finiteness of the key set.
pub proof fn lemma_ingest_lines_finite(
    m: Map<Seq<char>, Option<i64>>,
    p: Option<Seq<char>>,
    lines: Seq<Seq<char>>,
)
    requires
        m.dom().finite(),
    ensures
        spec_ingest_lines(m, p, lines).dom().finite(),
    decreases lines.len(),
{
    if lines.len() > 0 {
        lemma_ingest_lines_finite(spec_ingest_one(m, p, lines[0]), p, lines.skip(1));
    }
}

/// Law: ingestion is idempotent. Running ingestion a second time against the
/// same source lines and the same store leaves the store contents exactly as
/// the first run left them.
pub proof fn lemma_ingest_idempotent(
    m: Map<Seq<char>, Option<i64>>,
    p: Option<Seq<char>>,
    lines: Seq<Seq<char>>,
)
    requires
        m.dom().finite(),
    ensures
        spec_ingest(spec_ingest(m, p, lines), p, lines) == spec_ingest(m, p, lines),
{
    if m.dom().len() > 0 {
    } else {
        let r = spec_ingest_lines(m, p, lines);
        lemma_ingest_lines_finite(m, p, lines);
        if r.dom().len() == 0 {
            r.dom().lemma_len0_is_empty();
            m.dom().lemma_len0_is_empty();
            assert(r =~= m);
        }
    }
}

/// The authoritative store: one connection owning the address table.
pub struct Store {
    conn: rusqlite::Connection,
}

/// Result of an authoritative point lookup: `None` when the address is
/// absent, `Some(balance)` when present with its stored optional balance.
pub open spec fn spec_lookup(m: Map<Seq<char>, Option<i64>>, a: Seq<char>) -> Option<Option<i64>> {
    if m.dom().contains(a) {
        Some(m[a])
    } else {
        None
    }
}

impl Store {
    /// The map from stored address to stored optional balance.
    pub closed spec fn contents(self) -> Map<Seq<char>, Option<i64>> {
        table_map(self.conn)
    }

    /// A store always holds finitely many rows.
    pub open spec fn wf(self) -> bool {
        self.contents().dom().finite()
    }

    /// Opens (creating it if absent) the store file at `path` and ensures the
    /// address table exists. Bootstrap failures are surfaced, never ignored.
    pub fn open(path: &str) -> (r: Result<Store, StoreError>)
        ensures
            r matches Ok(s) ==> s.wf(),
    {
        let mut conn = match conn_open(path) {
            Ok(c) => c,
            Err(_) => return Err(StoreError),
        };
        match conn_init_schema(&mut conn) {
            Ok(_) => Ok(Store { conn }),
            Err(_) => Err(StoreError),
        }
    }

    /// Opens an existing store read-only: a worker's handle for concurrent
    /// authoritative point lookups over the frozen post-ingestion dataset.
    /// It cannot write, and the rows it observes cannot change under it.
    pub fn open_read_only(path: &str) -> (r: Result<Store, StoreError>)
        ensures
            r matches Ok(s) ==> s.wf(),
    {
        match conn_open_read_only(path) {
            Ok(conn) => Ok(Store { conn }),
            Err(_) => Err(StoreError),
        }
    }

    /// Opens a fresh in-memory store holding nothing yet.
    pub fn open_in_memory() -> (r: Result<Store, StoreError>)
        ensures
            r matches Ok(s) ==> s.wf() && s.contents().dom().len() == 0,
    {
        match conn_open_memory() {
            Ok(conn) => Ok(Store { conn }),
            Err(_) => Err(StoreError),
        }
    }

    /// Number of stored addresses.
    pub fn count(&self) -> (r: Result<u64, StoreError>)
        ensures
            r matches Ok(n) ==> n == self.contents().dom().len(),
    {
        match conn_count(&self.conn) {
            Ok(n) => Ok(n as u64),
            Err(_) => Err(StoreError),
        }
    }

    /// Authoritative point lookup: exactly which addresses are stored, with
    /// their stored attributes.
    pub fn lookup(&self, address: &str) -> (r: Result<Option<Option<i64>>, StoreError>)
        ensures
            r matches Ok(o) ==> o == spec_lookup(self.contents(), address@),
    {
        match conn_lookup(&self.conn, address) {
            Ok(o) => Ok(o),
            Err(_) => Err(StoreError),
        }
    }

    /// Every stored address, each exactly once.
    pub fn keys(&self) -> (r: Result<Vec<String>, StoreError>)
        ensures
            r matches Ok(v) ==> v.deep_view().to_set() == self.contents().dom()
                && v.deep_view().no_duplicates(),
    {
        match conn_keys(&self.conn) {
            Ok(v) => Ok(v),
            Err(_) => Err(StoreError),
        }
    }

    /// Ingests the dataset exactly once: a non-empty store is left untouched,
    /// an empty one is loaded inside a single bulk transaction, streaming the
    /// lines in order, skipping malformed lines and addresses that fail the
    /// prefix policy, first stored row winning on a repeated address, and
    /// finally indexing the key column. A failure before the commit rolls the
    /// transaction back, so the store is observed either untouched or
    /// completely loaded, never partially: on an error the contents are as
    /// before, except when only the final indexing failed, in which case the
    /// load itself is complete.
    pub fn ingest(&mut self, lines: &Vec<String>, policy: &PrefixPolicy) -> (r: Result<
        (),
        StoreError,
    >)
        requires
            old(self).wf(),
        ensures
            final(self).wf(),
            r matches Ok(_) ==> final(self).contents() == spec_ingest(
                old(self).contents(),
                spec_policy(*policy),
                lines.deep_view(),
            ),
            r matches Err(_) ==> final(self).contents() == old(self).contents() || final(self).contents()
                == spec_ingest(old(self).contents(), spec_policy(*policy), lines.deep_view()),
    {
        let ghost m0 = self.contents();
        let ghost p = spec_policy(*policy);
        let existing: u64 = match self.count() {
            Ok(n) => n,
            Err(_) => return Err(StoreError),
        };
        if existing > 0 {
            return Ok(());
        }
        proof {
            m0.dom().lemma_len0_is_empty();
        }
        match conn_begin(&mut self.conn) {
            Ok(_) => (),
            Err(_) => return Err(StoreError),
        }
        let n: usize = lines.len();
        let mut i: usize = 0;
        while i < n
            invariant
                0 <= i <= n,
                n == lines.len(),
                m0.dom().finite(),
                m0.dom().len() == 0,
                m0 == old(self).contents(),
                p == spec_policy(*policy),
                txn_base(self.conn) == m0,
                table_map(self.conn) == spec_ingest_lines(m0, p, lines.deep_view().take(i as int)),
            decreases n - i,
        {
            let line: &String = &lines[i];
            let ghost lv = lines.deep_view();
            let ghost prev = table_map(self.conn);
            proof {
                assert(lv[i as int] == line@);
            }
            match parse_line(line.as_str()) {
                Some(rec) => {
                    if policy.accepts(rec.address.as_str()) {
                        match conn_insert(&mut self.conn, rec.address.as_str(), rec.balance) {
                            Ok(_) => (),
                            Err(_) => {
                                conn_rollback(&mut self.conn);
                                return Err(StoreError);
                            },
                        }
                        assert(table_map(self.conn) == spec_ingest_one(prev, p, lv[i as int]));
                    } else {
                        assert(table_map(self.conn) == spec_ingest_one(prev, p, lv[i as int]));
                    }
                },
                None => {
                    assert(table_map(self.conn) == spec_ingest_one(prev, p, lv[i as int]));
                },
            }
            proof {
                assert(table_map(self.conn) == spec_ingest_one(
                    spec_ingest_lines(m0, p, lv.take(i as int)),
                    p,
                    lv[i as int],
                ));
                assert(lv.take(i + 1).drop_last() =~= lv.take(i as int));
                assert(lv.take(i + 1).last() == lv[i as int]);
                lemma_ingest_lines_snoc(m0, p, lv.take(i + 1));
            }
            i = i + 1;
        }
        proof {
            assert(lines.deep_view().take(n as int) =~= lines.deep_view());
            lemma_ingest_lines_finite(m0, p, lines.deep_view());
        }
        match conn_commit(&mut self.conn) {
            Ok(_) => (),
            Err(_) => {
                conn_rollback(&mut self.conn);
                return Err(StoreError);
            },
        }
        match conn_create_index(&mut self.conn) {
            Ok(_) => (),
            Err(_) => return Err(StoreError),
        }
        Ok(())
    }
}

} // verus!
