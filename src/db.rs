use vstd::prelude::*;

use crate::address::{node_id_of, Address};
use crate::role::Role;

pub use crate::address::{conv_addr2id, conv_id2addr};

verus! {

/// A row of the file catalog.
pub struct FileInfoEntry {
    pub filename: String,
    pub is_local: bool,
    pub node_id: String,
    pub last_updated: Option<i64>,
}

/// A row of the node catalog.
pub struct NodeInfoEntry {
    pub node_id: String,
    pub ip: [u8; 4],
    pub port: u16,
    pub role: Role,
    pub last_updated: Option<i64>,
}

pub struct FileRow {
    pub filename: Seq<char>,
    pub is_local: bool,
    pub node_id: Seq<char>,
    pub last_updated: Option<i64>,
}

pub struct NodeRow {
    pub node_id: Seq<char>,
    pub ip: [u8; 4],
    pub port: u16,
    pub role: Role,
    pub last_updated: Option<i64>,
}

impl View for FileInfoEntry {
    type V = FileRow;

    open spec fn view(&self) -> FileRow {
        FileRow {
            filename: self.filename@,
            is_local: self.is_local,
            node_id: self.node_id@,
            last_updated: self.last_updated,
        }
    }
}

impl View for NodeInfoEntry {
    type V = NodeRow;

    open spec fn view(&self) -> NodeRow {
        NodeRow {
            node_id: self.node_id@,
            ip: self.ip,
            port: self.port,
            role: self.role,
            last_updated: self.last_updated,
        }
    }
}

pub open spec fn row_address(r: NodeRow) -> Address {
    Address { ip: r.ip, port: r.port }
}

/// The later of a row's time stamp and `now`: a stamp never goes back.
pub open spec fn later(prev: Option<i64>, now: i64) -> i64 {
    match prev {
        Some(t) => if t > now {
            t
        } else {
            now
        },
        None => now,
    }
}

fn later_exec(prev: Option<i64>, now: i64) -> (r: i64)
    ensures
        r == later(prev, now),
{
    match prev {
        Some(t) => if t > now {
            t
        } else {
            now
        },
        None => now,
    }
}

fn same_address(a: &Address, b: &Address) -> (r: bool)
    ensures
        r == (*a == *b),
{
    if a.ip[0] == b.ip[0] && a.ip[1] == b.ip[1] && a.ip[2] == b.ip[2] && a.ip[3] == b.ip[3] && a.port
        == b.port {
        assert(a.ip =~= b.ip);
        true
    } else {
        false
    }
}

impl FileInfoEntry {
    /// A row not yet stamped.
    pub fn initialize(filename: String, is_local: bool, node_id: String) -> (r: FileInfoEntry)
        ensures
            r@ == (FileRow {
                filename: filename@,
                is_local,
                node_id: node_id@,
                last_updated: None,
            }),
    {
        FileInfoEntry { filename, is_local, node_id, last_updated: None }
    }

    pub fn copy(&self) -> (r: FileInfoEntry)
        ensures
            r@ == self@,
    {
        FileInfoEntry {
            filename: self.filename.clone(),
            is_local: self.is_local,
            node_id: self.node_id.clone(),
            last_updated: self.last_updated,
        }
    }
}

impl NodeInfoEntry {
    /// A row not yet stamped, keyed by the node identifier of `ip:port`.
    pub fn initialize(ip: [u8; 4], port: u16, role: Role) -> (r: NodeInfoEntry)
        ensures
            r@ == (NodeRow {
                node_id: node_id_of(Address { ip, port }),
                ip,
                port,
                role,
                last_updated: None,
            }),
    {
        NodeInfoEntry { node_id: conv_addr2id(&ip, port), ip, port, role, last_updated: None }
    }

    pub fn copy(&self) -> (r: NodeInfoEntry)
        ensures
            r@ == self@,
    {
        NodeInfoEntry {
            node_id: self.node_id.clone(),
            ip: self.ip,
            port: self.port,
            role: self.role,
            last_updated: self.last_updated,
        }
    }
}

// ------------------------------------------------------------------
// Node catalog
// ------------------------------------------------------------------

/// The index of the row of `a` among `rows[from..]`.
pub open spec fn find_node_from(rows: Seq<NodeRow>, a: Address, from: int) -> Option<int>
    decreases rows.len() - from,
{
    if from < 0 || from >= rows.len() {
        None
    } else if row_address(rows[from]) == a {
        Some(from)
    } else {
        find_node_from(rows, a, from + 1)
    }
}

pub open spec fn find_node(rows: Seq<NodeRow>, a: Address) -> Option<int> {
    find_node_from(rows, a, 0)
}

/// The rows after recording that `a` was heard from at `now` in `role`: its
/// row is replaced in place, or added at the end.
pub open spec fn upsert_node(rows: Seq<NodeRow>, a: Address, role: Role, now: i64) -> Seq<NodeRow> {
    match find_node(rows, a) {
        Some(i) => rows.update(
            i,
            NodeRow {
                node_id: node_id_of(a),
                ip: a.ip,
                port: a.port,
                role,
                last_updated: Some(later(rows[i].last_updated, now)),
            },
        ),
        None => rows.push(
            NodeRow { node_id: node_id_of(a), ip: a.ip, port: a.port, role, last_updated: Some(now) },
        ),
    }
}

/// Every row is keyed by the identifier of its address, is stamped, and no
/// two rows share an address.
pub open spec fn nodes_wf(rows: Seq<NodeRow>) -> bool {
    &&& forall|i: int|
        0 <= i < rows.len() ==> (#[trigger] rows[i]).node_id == node_id_of(row_address(rows[i]))
            && rows[i].last_updated is Some
    &&& forall|i: int, j: int|
        0 <= i < rows.len() && 0 <= j < rows.len() && i != j ==> row_address(#[trigger] rows[i])
            != row_address(#[trigger] rows[j])
}

proof fn lemma_find_node_from(rows: Seq<NodeRow>, a: Address, from: int)
    requires
        0 <= from,
    ensures
        find_node_from(rows, a, from) matches Some(i) ==> from <= i < rows.len() && row_address(
            rows[i],
        ) == a && forall|j: int| from <= j < i ==> row_address(#[trigger] rows[j]) != a,
        find_node_from(rows, a, from) is None ==> forall|j: int|
            from <= j < rows.len() ==> row_address(#[trigger] rows[j]) != a,
    decreases rows.len() - from,
{
    if from < rows.len() && row_address(rows[from]) != a {
        lemma_find_node_from(rows, a, from + 1);
    }
}

pub proof fn lemma_find_node(rows: Seq<NodeRow>, a: Address)
    ensures
        find_node(rows, a) matches Some(i) ==> 0 <= i < rows.len() && row_address(rows[i]) == a
            && forall|j: int| 0 <= j < i ==> row_address(#[trigger] rows[j]) != a,
        find_node(rows, a) is None ==> forall|j: int|
            0 <= j < rows.len() ==> row_address(#[trigger] rows[j]) != a,
{
    lemma_find_node_from(rows, a, 0);
}

/// The node catalog: one row per node identifier, in order of first insertion.
pub struct NodeInfoDB {
    rows: Vec<NodeInfoEntry>,
}

impl View for NodeInfoDB {
    type V = Seq<NodeRow>;

    closed spec fn view(&self) -> Seq<NodeRow> {
        self.rows@.map_values(|e: NodeInfoEntry| e@)
    }
}

impl NodeInfoDB {
    pub open spec fn wf(&self) -> bool {
        nodes_wf(self@)
    }

    /// An empty catalog.
    pub fn intialize() -> (r: NodeInfoDB)
        ensures
            r@ == Seq::<NodeRow>::empty(),
            r.wf(),
    {
        let r = NodeInfoDB { rows: Vec::new() };
        assert(r@ =~= Seq::<NodeRow>::empty());
        r
    }

    /// The number of rows.
    pub fn len(&self) -> (r: usize)
        ensures
            r == self@.len(),
    {
        self.rows.len()
    }

    /// A copy of the row at `i`.
    pub fn row(&self, i: usize) -> (r: NodeInfoEntry)
        requires
            i < self@.len(),
        ensures
            r@ == self@[i as int],
    {
        self.rows[i].copy()
    }

    /// The index of the row of `a`, if any.
    pub fn find(&self, a: &Address) -> (r: Option<usize>)
        ensures
            match r {
                Some(i) => find_node(self@, *a) == Some(i as int),
                None => find_node(self@, *a) is None,
            },
    {
        let mut i: usize = 0;
        while i < self.rows.len()
            invariant
                0 <= i <= self@.len(),
                self@.len() == self.rows@.len(),
                find_node(self@, *a) == find_node_from(self@, *a, i as int),
            decreases self@.len() - i,
        {
            let e = &self.rows[i];
            let here = Address { ip: e.ip, port: e.port };
            assert(self@[i as int] == e@);
            if same_address(&here, a) {
                return Some(i);
            }
            i += 1;
        }
        None
    }

    /// Records that the node at `ip:port` was heard from at `now` in `role`.
    pub fn upsert(&mut self, ip: [u8; 4], port: u16, role: Role, now: i64)
        requires
            old(self).wf(),
        ensures
            final(self).wf(),
            final(self)@ == upsert_node(old(self)@, Address { ip, port }, role, now),
    {
        let a = Address { ip, port };
        let ghost before = self@;
        proof {
            lemma_find_node(before, a);
        }
        match self.find(&a) {
            Some(i) => {
                let stamp = later_exec(self.rows[i].last_updated, now);
                assert(self@[i as int] == self.rows@[i as int]@);
                let entry = NodeInfoEntry {
                    node_id: conv_addr2id(&ip, port),
                    ip,
                    port,
                    role,
                    last_updated: Some(stamp),
                };
                self.rows.set(i, entry);
            },
            None => {
                let entry = NodeInfoEntry {
                    node_id: conv_addr2id(&ip, port),
                    ip,
                    port,
                    role,
                    last_updated: Some(now),
                };
                self.rows.push(entry);
            },
        }
        assert(self@ =~= upsert_node(before, a, role, now));
    }

    /// The rows of the node at `ip:port`: none, or one.
    pub fn get_node_info(&self, ip: [u8; 4], port: u16) -> (r: Vec<NodeInfoEntry>)
        ensures
            r@.len() <= 1,
            match find_node(self@, Address { ip, port }) {
                Some(i) => r@.len() == 1 && r@[0]@ == self@[i],
                None => r@.len() == 0,
            },
    {
        let mut out: Vec<NodeInfoEntry> = Vec::new();
        proof {
            lemma_find_node(self@, Address { ip, port });
        }
        match self.find(&Address { ip, port }) {
            Some(i) => out.push(self.row(i)),
            None => {},
        }
        out
    }
}

/// The rows of Data nodes, in catalog order.
pub open spec fn data_rows(rows: Seq<NodeRow>) -> Seq<NodeRow>
    decreases rows.len(),
{
    if rows.len() == 0 {
        Seq::empty()
    } else {
        let rest = data_rows(rows.drop_last());
        if rows.last().role == Role::Data {
            rest.push(rows.last())
        } else {
            rest
        }
    }
}

pub proof fn lemma_data_rows(rows: Seq<NodeRow>)
    ensures
        data_rows(rows).len() <= rows.len(),
        forall|i: int|
            0 <= i < data_rows(rows).len() ==> (#[trigger] data_rows(rows)[i]).role == Role::Data
                && rows.contains(data_rows(rows)[i]),
    decreases rows.len(),
{
    if rows.len() > 0 {
        lemma_data_rows(rows.drop_last());
        let d = data_rows(rows);
        let rest = data_rows(rows.drop_last());
        assert forall|i: int| 0 <= i < d.len() implies (#[trigger] d[i]).role == Role::Data
            && rows.contains(d[i]) by {
            if i < rest.len() {
                assert(d[i] == rest[i]);
                let j = choose|j: int| 0 <= j < rows.drop_last().len() && rows.drop_last()[j] == rest[i];
                assert(rows[j] == rest[i]);
            } else {
                assert(rows[rows.len() - 1] == d[i]);
            }
        }
    }
}

impl NodeInfoDB {
    /// The rows of Data nodes, in catalog order.
    pub fn get_data_nodes(&self) -> (r: Vec<NodeInfoEntry>)
        ensures
            r@.map_values(|e: NodeInfoEntry| e@) == data_rows(self@),
    {
        let mut out: Vec<NodeInfoEntry> = Vec::new();
        let mut i: usize = 0;
        while i < self.rows.len()
            invariant
                0 <= i <= self@.len(),
                self@.len() == self.rows@.len(),
                out@.map_values(|e: NodeInfoEntry| e@) == data_rows(self@.subrange(0, i as int)),
            decreases self@.len() - i,
        {
            let ghost prefix = self@.subrange(0, i + 1);
            assert(prefix.drop_last() =~= self@.subrange(0, i as int));
            assert(prefix.last() == self.rows@[i as int]@);
            if self.rows[i].role == Role::Data {
                out.push(self.rows[i].copy());
            }
            i += 1;
            assert(out@.map_values(|e: NodeInfoEntry| e@) =~= data_rows(self@.subrange(0, i as int)));
        }
        assert(self@.subrange(0, i as int) =~= self@);
        out
    }
}

// ------------------------------------------------------------------
// File catalog
// ------------------------------------------------------------------

pub open spec fn find_file_from(rows: Seq<FileRow>, name: Seq<char>, from: int) -> Option<int>
    decreases rows.len() - from,
{
    if from < 0 || from >= rows.len() {
        None
    } else if rows[from].filename == name {
        Some(from)
    } else {
        find_file_from(rows, name, from + 1)
    }
}

pub open spec fn find_file(rows: Seq<FileRow>, name: Seq<char>) -> Option<int> {
    find_file_from(rows, name, 0)
}

/// The rows after recording `e` at `now`: the row of its file name is
/// replaced in place, or added at the end.
pub open spec fn upsert_file(rows: Seq<FileRow>, e: FileRow, now: i64) -> Seq<FileRow> {
    match find_file(rows, e.filename) {
        Some(i) => rows.update(
            i,
            FileRow { last_updated: Some(later(rows[i].last_updated, now)), ..e },
        ),
        None => rows.push(FileRow { last_updated: Some(now), ..e }),
    }
}

/// Every row is stamped and no two rows share a file name.
pub open spec fn files_wf(rows: Seq<FileRow>) -> bool {
    &&& forall|i: int| 0 <= i < rows.len() ==> (#[trigger] rows[i]).last_updated is Some
    &&& forall|i: int, j: int|
        0 <= i < rows.len() && 0 <= j < rows.len() && i != j ==> (#[trigger] rows[i]).filename
            != (#[trigger] rows[j]).filename
}

proof fn lemma_find_file_from(rows: Seq<FileRow>, name: Seq<char>, from: int)
    requires
        0 <= from,
    ensures
        find_file_from(rows, name, from) matches Some(i) ==> from <= i < rows.len()
            && rows[i].filename == name && forall|j: int|
            from <= j < i ==> (#[trigger] rows[j]).filename != name,
        find_file_from(rows, name, from) is None ==> forall|j: int|
            from <= j < rows.len() ==> (#[trigger] rows[j]).filename != name,
    decreases rows.len() - from,
{
    if from < rows.len() && rows[from].filename != name {
        lemma_find_file_from(rows, name, from + 1);
    }
}

pub proof fn lemma_find_file(rows: Seq<FileRow>, name: Seq<char>)
    ensures
        find_file(rows, name) matches Some(i) ==> 0 <= i < rows.len() && rows[i].filename == name
            && forall|j: int| 0 <= j < i ==> (#[trigger] rows[j]).filename != name,
        find_file(rows, name) is None ==> forall|j: int|
            0 <= j < rows.len() ==> (#[trigger] rows[j]).filename != name,
{
    lemma_find_file_from(rows, name, 0);
}

/// The file catalog: one row per file name, in order of first insertion.
pub struct FileInfoDB {
    rows: Vec<FileInfoEntry>,
}

impl View for FileInfoDB {
    type V = Seq<FileRow>;

    closed spec fn view(&self) -> Seq<FileRow> {
        self.rows@.map_values(|e: FileInfoEntry| e@)
    }
}

impl FileInfoDB {
    pub open spec fn wf(&self) -> bool {
        files_wf(self@)
    }

    /// An empty catalog.
    pub fn intialize() -> (r: FileInfoDB)
        ensures
            r@ == Seq::<FileRow>::empty(),
            r.wf(),
    {
        let r = FileInfoDB { rows: Vec::new() };
        assert(r@ =~= Seq::<FileRow>::empty());
        r
    }

    pub fn len(&self) -> (r: usize)
        ensures
            r == self@.len(),
    {
        self.rows.len()
    }

    /// A copy of the row at `i`.
    pub fn row(&self, i: usize) -> (r: FileInfoEntry)
        requires
            i < self@.len(),
        ensures
            r@ == self@[i as int],
    {
        self.rows[i].copy()
    }

    fn find(&self, name: &String) -> (r: Option<usize>)
        ensures
            match r {
                Some(i) => find_file(self@, name@) == Some(i as int),
                None => find_file(self@, name@) is None,
            },
    {
        let mut i: usize = 0;
        while i < self.rows.len()
            invariant
                0 <= i <= self@.len(),
                self@.len() == self.rows@.len(),
                find_file(self@, name@) == find_file_from(self@, name@, i as int),
            decreases self@.len() - i,
        {
            assert(self@[i as int] == self.rows@[i as int]@);
            if self.rows[i].filename == *name {
                return Some(i);
            }
            i += 1;
        }
        None
    }

    /// Records `info` at `now`, replacing the row of its file name.
    pub fn upsert(&mut self, info: &FileInfoEntry, now: i64)
        requires
            old(self).wf(),
        ensures
            final(self).wf(),
            final(self)@ == upsert_file(old(self)@, info@, now),
    {
        let ghost before = self@;
        proof {
            lemma_find_file(before, info.filename@);
        }
        match self.find(&info.filename) {
            Some(i) => {
                let stamp = later_exec(self.rows[i].last_updated, now);
                assert(self@[i as int] == self.rows@[i as int]@);
                let mut entry = info.copy();
                entry.last_updated = Some(stamp);
                self.rows.set(i, entry);
            },
            None => {
                let mut entry = info.copy();
                entry.last_updated = Some(now);
                self.rows.push(entry);
            },
        }
        assert(self@ =~= upsert_file(before, info@, now));
    }

    /// The rows of `filename`: none, or one.
    pub fn get_file_info(&self, filename: &String) -> (r: Vec<FileInfoEntry>)
        ensures
            r@.len() <= 1,
            match find_file(self@, filename@) {
                Some(i) => r@.len() == 1 && r@[0]@ == self@[i],
                None => r@.len() == 0,
            },
    {
        let mut out: Vec<FileInfoEntry> = Vec::new();
        proof {
            lemma_find_file(self@, filename@);
        }
        match self.find(filename) {
            Some(i) => out.push(self.row(i)),
            None => {},
        }
        out
    }
}

// ------------------------------------------------------------------
// Replication targets
// ------------------------------------------------------------------

/// How many files the catalog places on node `id`.
pub open spec fn files_on(files: Seq<FileRow>, id: Seq<char>) -> nat
    decreases files.len(),
{
    if files.len() == 0 {
        0
    } else {
        files_on(files.drop_last(), id) + if files.last().node_id == id {
            1nat
        } else {
            0nat
        }
    }
}

/// Each Data node with the number of files placed on it, in catalog order.
pub open spec fn loads(nodes: Seq<NodeRow>, files: Seq<FileRow>) -> Seq<(Address, nat)> {
    row_loads(data_rows(nodes), files)
}

/// Each row's address with the number of files placed on it.
pub open spec fn row_loads(rows: Seq<NodeRow>, files: Seq<FileRow>) -> Seq<(Address, nat)> {
    rows.map_values(|r: NodeRow| (row_address(r), files_on(files, r.node_id)))
}

/// The index of the first least load among `ds[0..upto]`.
pub open spec fn least_index(ds: Seq<(Address, nat)>, upto: int) -> int
    decreases upto,
{
    if upto <= 1 {
        0
    } else {
        let m = least_index(ds, upto - 1);
        if ds[upto - 1].1 < ds[m].1 {
            upto - 1
        } else {
            m
        }
    }
}

/// The first `n` entries of `ds` taken least-loaded first; among equal
/// loads the earlier entry comes first.
pub open spec fn least_loaded(ds: Seq<(Address, nat)>, n: nat) -> Seq<(Address, nat)>
    decreases n,
{
    if n == 0 || ds.len() == 0 {
        Seq::empty()
    } else {
        let m = least_index(ds, ds.len() as int);
        seq![ds[m]] + least_loaded(ds.remove(m), (n - 1) as nat)
    }
}

pub open spec fn addresses_of(ds: Seq<(Address, nat)>) -> Seq<Address> {
    ds.map_values(|p: (Address, nat)| p.0)
}

/// The addresses of up to `n` Data nodes, those with the fewest files first.
pub open spec fn select_targets(nodes: Seq<NodeRow>, files: Seq<FileRow>, n: nat) -> Seq<Address> {
    addresses_of(least_loaded(loads(nodes, files), n))
}

pub proof fn lemma_least_index(ds: Seq<(Address, nat)>, upto: int)
    requires
        1 <= upto <= ds.len(),
    ensures
        0 <= least_index(ds, upto) < upto,
        forall|j: int| 0 <= j < upto ==> ds[least_index(ds, upto)].1 <= (#[trigger] ds[j]).1,
    decreases upto,
{
    if upto > 1 {
        lemma_least_index(ds, upto - 1);
    }
}

/// Counts the files the catalog places on node `id`.
fn count_files(files: &FileInfoDB, id: &String) -> (r: usize)
    ensures
        r == files_on(files@, id@),
{
    let mut c: usize = 0;
    let mut i: usize = 0;
    let n = files.len();
    while i < n
        invariant
            0 <= i <= n,
            n == files@.len(),
            c == files_on(files@.subrange(0, i as int), id@),
            c <= i,
        decreases n - i,
    {
        let e = files.row(i);
        let ghost prefix = files@.subrange(0, i + 1);
        assert(prefix.drop_last() =~= files@.subrange(0, i as int));
        if e.node_id == *id {
            c += 1;
        }
        i += 1;
    }
    assert(files@.subrange(0, n as int) =~= files@);
    c
}

pub open spec fn load_view(v: Seq<(Address, usize)>) -> Seq<(Address, nat)> {
    v.map_values(|p: (Address, usize)| (p.0, p.1 as nat))
}

/// The addresses of up to `n` Data nodes with the fewest files placed on
/// them; among equal counts, catalog order decides.
pub fn get_nodes_replication(nodes: &NodeInfoDB, files: &FileInfoDB, n: usize) -> (r: Vec<Address>)
    ensures
        r@ == select_targets(nodes@, files@, n as nat),
{
    let data = nodes.get_data_nodes();
    let mut cur: Vec<(Address, usize)> = Vec::new();
    let mut i: usize = 0;
    let ghost dv = data@.map_values(|e: NodeInfoEntry| e@);
    assert(dv == data_rows(nodes@));
    while i < data.len()
        invariant
            0 <= i <= data@.len(),
            dv == data@.map_values(|e: NodeInfoEntry| e@),
            load_view(cur@) == row_loads(dv.subrange(0, i as int), files@),
        decreases data@.len() - i,
    {
        let e = &data[i];
        let c = count_files(files, &e.node_id);
        assert(dv[i as int] == e@);
        let ghost before = load_view(cur@);
        cur.push((Address { ip: e.ip, port: e.port }, c));
        assert(load_view(cur@) =~= before.push((Address { ip: e.ip, port: e.port }, c as nat)));
        assert(row_loads(dv.subrange(0, i + 1), files@) =~= row_loads(dv.subrange(0, i as int), files@).push(
            (row_address(dv[i as int]), files_on(files@, dv[i as int].node_id)),
        ));
        i += 1;
    }
    assert(dv.subrange(0, i as int) =~= dv);
    let ghost all = loads(nodes@, files@);
    assert(load_view(cur@) == all);
    let mut out: Vec<Address> = Vec::new();
    let mut k: usize = 0;
    while k < n && cur.len() > 0
        invariant
            0 <= k <= n,
            out@ + addresses_of(
                least_loaded(load_view(cur@), (n - k) as nat),
            ) == addresses_of(least_loaded(all, n as nat)),
        decreases n - k,
    {
        let ghost cv = load_view(cur@);
        let mut m: usize = 0;
        let mut j: usize = 1;
        while j < cur.len()
            invariant
                1 <= j <= cur@.len(),
                cv == load_view(cur@),
                m == least_index(cv, j as int),
                m < j,
            decreases cur@.len() - j,
        {
            if cur[j].1 < cur[m].1 {
                m = j;
            }
            j += 1;
        }
        let picked = cur.remove(m);
        out.push(picked.0);
        proof {
            let rest = load_view(cur@);
            assert(rest =~= cv.remove(m as int));
            let tail = least_loaded(cv.remove(m as int), (n - k - 1) as nat);
            assert(least_loaded(cv, (n - k) as nat) == seq![cv[m as int]] + tail);
            assert(addresses_of(seq![cv[m as int]] + tail) =~= seq![picked.0] + addresses_of(tail));
            assert(out@ =~= out@.drop_last().push(picked.0));
        }
        k += 1;
        assert(out@ + addresses_of(
            least_loaded(load_view(cur@), (n - k) as nat),
        ) =~= addresses_of(least_loaded(all, n as nat)));
    }
    proof {
        let cv = load_view(cur@);
        assert(least_loaded(cv, (n - k) as nat) =~= Seq::<(Address, nat)>::empty());
        assert(addresses_of(Seq::<(Address, nat)>::empty()) =~= Seq::<Address>::empty());
        assert(out@ + Seq::<Address>::empty() =~= out@);
    }
    out
}

proof fn lemma_least_loaded(ds: Seq<(Address, nat)>, n: nat)
    ensures
        least_loaded(ds, n).len() <= n,
        least_loaded(ds, n).len() <= ds.len(),
        forall|i: int| 0 <= i < least_loaded(ds, n).len() ==> ds.contains(#[trigger] least_loaded(ds, n)[i]),
        forall|i: int, j: int|
            0 <= i < j < least_loaded(ds, n).len() ==> (#[trigger] least_loaded(ds, n)[i]).1
                <= (#[trigger] least_loaded(ds, n)[j]).1,
    decreases n,
{
    if n > 0 && ds.len() > 0 {
        let m = least_index(ds, ds.len() as int);
        lemma_least_index(ds, ds.len() as int);
        let rest_in = ds.remove(m);
        lemma_least_loaded(rest_in, (n - 1) as nat);
        let rest = least_loaded(rest_in, (n - 1) as nat);
        let res = least_loaded(ds, n);
        assert(res == seq![ds[m]] + rest);
        assert forall|i: int| 0 <= i < res.len() implies ds.contains(#[trigger] res[i]) by {
            if i == 0 {
                assert(ds[m] == res[0]);
            } else {
                assert(res[i] == rest[i - 1]);
                assert(rest_in.contains(rest[i - 1]));
                let k = choose|k: int| 0 <= k < rest_in.len() && rest_in[k] == rest[i - 1];
                if k < m {
                    assert(ds[k] == rest_in[k]);
                } else {
                    assert(ds[k + 1] == rest_in[k]);
                }
            }
        }
        assert forall|i: int, j: int| 0 <= i < j < res.len() implies (#[trigger] res[i]).1 <= (
        #[trigger] res[j]).1 by {
            assert(res[j] == rest[j - 1]);
            if i > 0 {
                assert(res[i] == rest[i - 1]);
            } else {
                assert(rest_in.contains(rest[j - 1]));
                let k = choose|k: int| 0 <= k < rest_in.len() && rest_in[k] == rest[j - 1];
                if k < m {
                    assert(ds[k] == rest_in[k]);
                } else {
                    assert(ds[k + 1] == rest_in[k]);
                }
            }
        }
    }
}

/// The catalog holds a Data node at `a`.
pub open spec fn is_data_node(nodes: Seq<NodeRow>, a: Address) -> bool {
    exists|k: int| 0 <= k < nodes.len() && row_address(#[trigger] nodes[k]) == a && nodes[k].role == Role::Data
}

/// What the chosen targets are: at most `n`; Data nodes of the catalog;
/// and in order of the number of files placed on them, fewest first.
pub proof fn lemma_select_targets(nodes: Seq<NodeRow>, files: Seq<FileRow>, n: nat)
    requires
        nodes_wf(nodes),
    ensures
        select_targets(nodes, files, n).len() <= n,
        forall|i: int|
            0 <= i < select_targets(nodes, files, n).len() ==> is_data_node(
                nodes,
                #[trigger] select_targets(nodes, files, n)[i],
            ),
        forall|i: int, j: int|
            0 <= i < j < select_targets(nodes, files, n).len() ==> files_on(
                files,
                node_id_of(#[trigger] select_targets(nodes, files, n)[i]),
            ) <= files_on(files, node_id_of(#[trigger] select_targets(nodes, files, n)[j])),
{
    let ds = loads(nodes, files);
    let res = least_loaded(ds, n);
    let out = select_targets(nodes, files, n);
    lemma_least_loaded(ds, n);
    lemma_data_rows(nodes);
    let d = data_rows(nodes);
    assert forall|i: int| 0 <= i < res.len() implies is_data_node(nodes, (#[trigger] res[i]).0)
        && res[i].1 == files_on(files, node_id_of(res[i].0)) by {
        assert(ds.contains(res[i]));
        let q = choose|q: int| 0 <= q < ds.len() && ds[q] == res[i];
        assert(ds[q] == (row_address(d[q]), files_on(files, d[q].node_id)));
        assert(nodes.contains(d[q]));
        let k = choose|k: int| 0 <= k < nodes.len() && nodes[k] == d[q];
        assert(row_address(nodes[k]) == res[i].0);
    }
    assert forall|i: int| 0 <= i < out.len() implies is_data_node(nodes, #[trigger] out[i]) by {
        assert(out[i] == res[i].0);
    }
    assert forall|i: int, j: int| 0 <= i < j < out.len() implies files_on(
        files,
        node_id_of(#[trigger] out[i]),
    ) <= files_on(files, node_id_of(#[trigger] out[j])) by {
        assert(out[i] == res[i].0);
        assert(out[j] == res[j].0);
        assert(res[i].1 <= res[j].1);
    }
}

/// A row with its time stamp left out.
pub open spec fn unstamped_node(r: NodeRow) -> NodeRow {
    NodeRow { last_updated: None, ..r }
}

pub open spec fn unstamped_file(r: FileRow) -> FileRow {
    FileRow { last_updated: None, ..r }
}

/// Two catalogs that differ in time stamps only.
pub open spec fn same_nodes(x: Seq<NodeRow>, y: Seq<NodeRow>) -> bool {
    x.map_values(|r: NodeRow| unstamped_node(r)) == y.map_values(|r: NodeRow| unstamped_node(r))
}

pub open spec fn same_files(x: Seq<FileRow>, y: Seq<FileRow>) -> bool {
    x.map_values(|r: FileRow| unstamped_file(r)) == y.map_values(|r: FileRow| unstamped_file(r))
}

proof fn lemma_upsert_node_finds(rows: Seq<NodeRow>, a: Address, role: Role, now: i64)
    ensures
        find_node(upsert_node(rows, a, role, now), a) == Some(
            match find_node(rows, a) {
                Some(i) => i,
                None => rows.len() as int,
            },
        ),
{
    let after = upsert_node(rows, a, role, now);
    let idx = match find_node(rows, a) {
        Some(i) => i,
        None => rows.len() as int,
    };
    lemma_find_node(rows, a);
    lemma_find_node(after, a);
    assert(row_address(after[idx]) == a);
    assert(forall|j: int| 0 <= j < idx ==> after[j] == rows[j]);
    if let Some(k) = find_node(after, a) {
        if k < idx {
            assert(after[k] == rows[k]);
        } else if k > idx {
            lemma_find_node_first(after, a, idx);
        }
    }
}

proof fn lemma_find_node_first(rows: Seq<NodeRow>, a: Address, i: int)
    requires
        0 <= i < rows.len(),
        row_address(rows[i]) == a,
    ensures
        find_node(rows, a) matches Some(k) && k <= i,
{
    lemma_find_node_first_from(rows, a, 0, i);
}

proof fn lemma_find_node_first_from(rows: Seq<NodeRow>, a: Address, from: int, i: int)
    requires
        0 <= from <= i < rows.len(),
        row_address(rows[i]) == a,
    ensures
        find_node_from(rows, a, from) matches Some(k) && k <= i,
    decreases i - from,
{
    if from < i && row_address(rows[from]) != a {
        lemma_find_node_first_from(rows, a, from + 1, i);
    }
}

/// Recording the same node twice leaves the catalog as recording it once,
/// but for the time stamps.
pub proof fn lemma_upsert_node_idempotent(rows: Seq<NodeRow>, a: Address, role: Role, t1: i64, t2: i64)
    ensures
        same_nodes(upsert_node(upsert_node(rows, a, role, t1), a, role, t2), upsert_node(rows, a, role, t1)),
{
    let once = upsert_node(rows, a, role, t1);
    let twice = upsert_node(once, a, role, t2);
    lemma_upsert_node_finds(rows, a, role, t1);
    lemma_find_node(rows, a);
    let x = twice.map_values(|r: NodeRow| unstamped_node(r));
    let y = once.map_values(|r: NodeRow| unstamped_node(r));
    assert(x =~= y);
}

/// Re-recording a node never moves its time stamp back.
pub proof fn lemma_upsert_node_stamp(rows: Seq<NodeRow>, a: Address, role: Role, now: i64)
    ensures
        find_node(rows, a) matches Some(i) ==> (rows[i].last_updated matches Some(t) ==> upsert_node(
            rows,
            a,
            role,
            now,
        )[i].last_updated matches Some(u) && u >= t),
        upsert_node(rows, a, role, now)[find_node(upsert_node(rows, a, role, now), a)->0].last_updated
            matches Some(u) && u >= now,
{
    lemma_upsert_node_finds(rows, a, role, now);
    lemma_find_node(rows, a);
}

proof fn lemma_find_file_first_from(rows: Seq<FileRow>, name: Seq<char>, from: int, i: int)
    requires
        0 <= from <= i < rows.len(),
        rows[i].filename == name,
    ensures
        find_file_from(rows, name, from) matches Some(k) && k <= i,
    decreases i - from,
{
    if from < i && rows[from].filename != name {
        lemma_find_file_first_from(rows, name, from + 1, i);
    }
}

proof fn lemma_upsert_file_finds(rows: Seq<FileRow>, e: FileRow, now: i64)
    ensures
        find_file(upsert_file(rows, e, now), e.filename) == Some(
            match find_file(rows, e.filename) {
                Some(i) => i,
                None => rows.len() as int,
            },
        ),
{
    let after = upsert_file(rows, e, now);
    let idx = match find_file(rows, e.filename) {
        Some(i) => i,
        None => rows.len() as int,
    };
    lemma_find_file(rows, e.filename);
    lemma_find_file(after, e.filename);
    assert(after[idx].filename == e.filename);
    assert(forall|j: int| 0 <= j < idx ==> after[j] == rows[j]);
    if let Some(k) = find_file(after, e.filename) {
        if k < idx {
            assert(after[k] == rows[k]);
        } else if k > idx {
            lemma_find_file_first_from(after, e.filename, 0, idx);
        }
    }
}

/// Recording the same file twice leaves the catalog as recording it once,
/// but for the time stamps.
pub proof fn lemma_upsert_file_idempotent(rows: Seq<FileRow>, e: FileRow, t1: i64, t2: i64)
    ensures
        same_files(upsert_file(upsert_file(rows, e, t1), e, t2), upsert_file(rows, e, t1)),
{
    let once = upsert_file(rows, e, t1);
    let twice = upsert_file(once, e, t2);
    lemma_upsert_file_finds(rows, e, t1);
    lemma_find_file(rows, e.filename);
    let x = twice.map_values(|r: FileRow| unstamped_file(r));
    let y = once.map_values(|r: FileRow| unstamped_file(r));
    assert(x =~= y);
}

/// Re-recording a file never moves its time stamp back.
pub proof fn lemma_upsert_file_stamp(rows: Seq<FileRow>, e: FileRow, now: i64)
    ensures
        find_file(rows, e.filename) matches Some(i) ==> (rows[i].last_updated matches Some(t)
            ==> upsert_file(rows, e, now)[i].last_updated matches Some(u) && u >= t),
{
    lemma_find_file(rows, e.filename);
}

} // verus!
