use crate::data_lake::TachyonDataLake;
use stable_vec::ExternStableVec;
use vstd::prelude::*;

verus! {

/// Capacity of a connection's outbound staging lake.
pub const DATA_LAKE_SIZE: usize = 14336;

/// One accepted connection: its socket descriptor, its outbound staging lake
/// and, in speculative-read mode, the kernel buffer its last receive used.
pub struct Connection {
    pub fd: i32,
    pub out: TachyonDataLake<DATA_LAKE_SIZE>,
    pub kernel_buffer_id: Option<u16>,
}

/// The connection table: an `ExternStableVec` of connections, indexed by
/// connection id. Verus sees it only through the names and wrappers below.
#[verifier::external_body]
pub struct ConnTable {
    table: ExternStableVec<Connection>,
}

/// The filled slots of a connection table, by index.
pub uninterp spec fn conn_slots(v: ConnTable) -> Map<int, Connection>;

/// The index that the next push of a connection table returns.
pub uninterp spec fn conn_next(v: ConnTable) -> nat;

/// The number of slots of a connection table.
pub uninterp spec fn conn_cap(v: ConnTable) -> nat;

/// Relies on `StableVecFacade::with_capacity`: a table with no element, whose
/// next push index is zero.
#[verifier::external_body]
pub(crate) fn conns_with_capacity(capacity: usize) -> (r: ConnTable)
    ensures
        conn_slots(r).dom() == Set::<int>::empty(),
        conn_next(r) == 0,
{
    ConnTable { table: ExternStableVec::with_capacity(capacity) }
}

/// Relies on `StableVecFacade::push`: the element goes to the next push index,
/// which no filled slot uses, and that index moves up by one. It panics only
/// past `isize::MAX` slots.
#[verifier::external_body]
pub(crate) fn conns_push(v: &mut ConnTable, c: Connection) -> (r: usize)
    requires
        conn_next(*old(v)) < 0x1_0000_0000,
    ensures
        r == conn_next(*old(v)),
        !conn_slots(*old(v)).contains_key(r as int),
        conn_slots(*final(v)) == conn_slots(*old(v)).insert(r as int, c),
        conn_next(*final(v)) == conn_next(*old(v)) + 1,
{
    v.table.push(c)
}

/// Relies on `StableVecFacade::has_element_at`: whether slot `idx` is filled;
/// never panics.
#[verifier::external_body]
pub(crate) fn conns_has(v: &ConnTable, idx: usize) -> (r: bool)
    ensures
        r == conn_slots(*v).contains_key(idx as int),
{
    v.table.has_element_at(idx)
}

/// Relies on `StableVecFacade::get`: the element of slot `idx`, where it is filled.
#[verifier::external_body]
pub(crate) fn conns_get(v: &ConnTable, idx: usize) -> (r: Option<&Connection>)
    ensures
        match r {
            Some(c) => conn_slots(*v).contains_key(idx as int) && *c == conn_slots(*v)[idx as int],
            None => !conn_slots(*v).contains_key(idx as int),
        },
{
    v.table.get(idx)
}

/// Relies on `StableVecFacade::remove`: a filled slot lies below the capacity
/// and the next push index; removing empties it and leaves both unchanged.
#[verifier::external_body]
pub(crate) fn conns_remove(v: &mut ConnTable, idx: usize) -> (r: Option<Connection>)
    requires
        conn_slots(*old(v)).contains_key(idx as int),
    ensures
        r == Some(conn_slots(*old(v))[idx as int]),
        idx < conn_cap(*old(v)),
        idx < conn_next(*old(v)),
        conn_slots(*final(v)) == conn_slots(*old(v)).remove(idx as int),
        conn_next(*final(v)) == conn_next(*old(v)),
        conn_cap(*final(v)) == conn_cap(*old(v)),
{
    v.table.remove(idx)
}

/// Relies on `StableVecFacade::insert`: an empty slot below the capacity and
/// the next push index is filled, and neither changes.
#[verifier::external_body]
pub(crate) fn conns_insert(
    v: &mut ConnTable,
    idx: usize,
    c: Connection,
) -> (r: Option<Connection>)
    requires
        idx < conn_cap(*old(v)),
        idx < conn_next(*old(v)),
        !conn_slots(*old(v)).contains_key(idx as int),
    ensures
        r is None,
        conn_slots(*final(v)) == conn_slots(*old(v)).insert(idx as int, c),
        conn_next(*final(v)) == conn_next(*old(v)),
        conn_cap(*final(v)) == conn_cap(*old(v)),
{
    v.table.insert(idx, c)
}

/// Relies on `StableVecFacade::next_push_index`.
#[verifier::external_body]
pub(crate) fn conns_next_push_index(v: &ConnTable) -> (r: usize)
    ensures
        r == conn_next(*v),
{
    v.table.next_push_index()
}

/// Relies on `StableVecFacade::num_elements`: the number of filled slots.
#[verifier::external_body]
pub(crate) fn conns_num_elements(v: &ConnTable) -> (r: usize)
    ensures
        r == conn_slots(*v).dom().len(),
{
    v.table.num_elements()
}

} // verus!
