use crate::data_lake::TachyonDataLake;
use crate::table::{
    conn_next, conn_slots, conns_get, conns_has, conns_insert, conns_next_push_index,
    conns_num_elements, conns_push, conns_remove, conns_with_capacity, ConnTable, Connection,
    DATA_LAKE_SIZE,
};
use crate::user_data::{cookie_of, UserData, INIT_REQUEST, POLL_EVENT};
use std::collections::VecDeque;
use vstd::prelude::*;

verus! {

/// Size of one kernel receive buffer.
pub const BUFFER_SIZE: usize = 7168;

/// Number of kernel receive buffers of one worker.
pub const BUFFERS_COUNT: usize = 1024;

/// Pending releases that trigger a batched hand-back: two thirds of the pool.
pub const RELEASE_THRESHOLD: usize = BUFFERS_COUNT * 2 / 3;

/// Default depth of the ring.
pub const DEFAULT_URING_SIZE: u32 = 4096;

/// Multi-shot accepts posted on the listener.
pub const DEFAULT_ACCEPT_MULTIPLICATOR: u8 = 16;

/// Default idle time of the kernel submission poller, in milliseconds.
pub const DEFAULT_SQPOLL_IDLE: u32 = 5000;

/// Request lines answered per received buffer.
pub const MAX_REQUESTS: usize = 50;

/// Connection ids held back at start, so that real connections start above them.
pub const RESERVED_IDS: usize = 100;

/// Descriptor recorded for a held-back connection id.
pub const PLACEHOLDER_FD: i32 = 0xFFFF;

/// Snapshots kept alive for in-flight sends before the queue is cut back.
pub const KEEPALIVE_CEILING: usize = 100_000;

/// Snapshots left after the queue is cut back: the most recent ones.
pub const KEEPALIVE_KEEP: usize = 20_000;

/// Connection ids fit the cookie's 32-bit field.
pub const MAX_CONNECTIONS: u64 = 0x1_0000_0000;

/// Slots reserved in the connection table at start.
pub const TABLE_CAPACITY: usize = 65535;

/// IP type-of-service given to a connection whose speculative read found nothing.
pub const TOS_HIGH_PRIORITY: i32 = 0xB8;

/// Linux `EAGAIN`.
pub const EAGAIN: i32 = 11;

/// Linux `EBADF`.
pub const EBADF: i32 = 9;

/// Linux `EPIPE`.
pub const EPIPE: i32 = 32;

/// Linux `ECONNRESET`.
pub const ECONNRESET: i32 = 104;

/// Linux `ENOBUFS`.
pub const ENOBUFS: i32 = 105;

/// One operation that the worker asks the ring, or the socket layer, to perform.
#[derive(Debug)]
pub enum Action {
    /// Register these buffers with the kernel under the buffer group, then wait
    /// until every registration is acknowledged.
    ProvideBuffers { ids: Vec<u16> },
    /// Submit what is queued without waiting.
    Submit,
    /// Tune a freshly accepted socket.
    PrepareSocket { fd: i32 },
    /// Post a multi-shot readiness poll.
    PollAdd { fd: i32, user_data: u64 },
    /// Post a multi-shot receive from the buffer group.
    RecvMulti { fd: i32, user_data: u64 },
    /// Send the in-flight snapshot at `slot` of the keep-alive queue.
    Send { fd: i32, user_data: u64, slot: usize },
    /// Close a socket.
    Close { fd: i32 },
    /// Raise a socket's IP type-of-service to a high-priority class.
    RaiseTos { fd: i32, tos: i32 },
    /// Move the first `len` bytes of a receive buffer to its tail and zero its head.
    ShiftBuffer { buffer_id: u16, len: usize },
}

/// Why a worker must stop.
#[derive(Debug, Clone, Copy, PartialEq, Eq, Structural)]
pub enum WorkerError {
    /// No connection id is left that fits the cookie.
    ConnectionIdRange,
}

/// One worker: its configuration, its connection table, its buffer pool
/// bookkeeping, its outbound queues and its clock.
pub struct Server {
    addr: String,
    workers: u8,
    uring_size: u32,
    sqpoll_enabled: bool,
    sqpoll_idle: u32,
    realtime: bool,
    ub_kernel_dma: bool,
    conns: ConnTable,
    date: Vec<u8>,
    json_body: Vec<u8>,
    sync_now: bool,
    pointers: VecDeque<Vec<u8>>,
    released_buffers: Vec<u16>,
    in_kernel: Vec<bool>,
    universal_counter: u64,
    io_send_busy: bool,
    nano_clock: i64,
    clock: i64,
    last_sync_time: i64,
    rps: u64,
    hz: u64,
    synced: i64,
    rps_counter: u64,
    hz_counter: u64,
}

/// The buffer ids `0 .. BUFFERS_COUNT`, in order.
pub open spec fn all_buffer_ids() -> Seq<u16> {
    Seq::new(BUFFERS_COUNT as nat, |i: int| i as u16)
}

impl Server {
    /// Buffer ids consumed and not yet handed back to the kernel, in order.
    pub closed spec fn released(&self) -> Seq<u16> {
        self.released_buffers@
    }

    /// Whether the kernel holds buffer `id`.
    pub open spec fn kernel_owned(&self, id: int) -> bool {
        self.ownership()[id]
    }

    /// The live connections, by id.
    pub closed spec fn connections(&self) -> Map<int, Connection> {
        conn_slots(self.conns)
    }

    /// The id that the next accepted connection gets.
    pub closed spec fn next_id(&self) -> nat {
        conn_next(self.conns)
    }

    /// The 35-byte date line put into every response.
    pub closed spec fn date_line(&self) -> Seq<u8> {
        self.date@
    }

    /// The encoded body of the JSON route.
    pub closed spec fn json(&self) -> Seq<u8> {
        self.json_body@
    }

    /// Whether the speculative-read mode is on.
    pub closed spec fn speculative(&self) -> bool {
        self.ub_kernel_dma
    }

    /// Snapshots kept alive for in-flight sends, oldest first.
    pub closed spec fn in_flight(&self) -> Seq<Vec<u8>> {
        self.pointers@
    }

    /// Whether submissions were queued since the last sync.
    pub closed spec fn must_sync(&self) -> bool {
        self.sync_now
    }

    /// Whether sends were posted since the last wait.
    pub closed spec fn sending(&self) -> bool {
        self.io_send_busy
    }

    /// Requests answered in the current second.
    pub closed spec fn requests_this_second(&self) -> u64 {
        self.rps_counter
    }

    /// Requests answered in the last full second.
    pub closed spec fn requests_per_second(&self) -> u64 {
        self.rps
    }

    /// The cached monotonic clock, in nanoseconds.
    pub closed spec fn now_ns(&self) -> i64 {
        self.nano_clock
    }

    /// The monotonic time of the last flush.
    pub closed spec fn last_flush(&self) -> i64 {
        self.last_sync_time
    }

    /// The calendar second the counters were last rolled over at.
    pub closed spec fn synced_second(&self) -> i64 {
        self.synced
    }

    /// Loop events counted in the last full second.
    pub closed spec fn events_per_second(&self) -> u64 {
        self.hz
    }

    /// Loop events counted in the current second.
    pub closed spec fn events_this_second(&self) -> u64 {
        self.hz_counter
    }

    /// The address the listener binds.
    pub closed spec fn address(&self) -> String {
        self.addr
    }

    /// Flushes skipped by the throttle.
    pub closed spec fn skipped_flushes(&self) -> u64 {
        self.universal_counter
    }

    /// Which buffers the kernel holds, by id.
    pub closed spec fn ownership(&self) -> Seq<bool> {
        self.in_kernel@
    }

    /// The cached calendar second.
    pub closed spec fn now_s(&self) -> i64 {
        self.clock
    }

    /// Every buffer is either with the kernel or waiting in the released queue,
    /// never both, and no id waits twice.
    pub open spec fn buffers_wf(&self) -> bool {
        &&& self.ownership().len() == BUFFERS_COUNT
        &&& self.released().no_duplicates()
        &&& forall|k: int|
            0 <= k < self.released().len() ==> (#[trigger] self.released()[k]) < BUFFERS_COUNT
        &&& forall|id: int|
            0 <= id < BUFFERS_COUNT ==> (!#[trigger] self.ownership()[id]
                <==> self.released().contains(id as u16))
    }

    /// The worker's invariant: the buffer pool is accounted for, the date line
    /// has its 35 bytes, the JSON body fits the composer, connection ids fit
    /// the cookie, and every live connection has a well-formed lake and an id
    /// below the next one, with its recorded kernel buffer inside the pool.
    pub open spec fn wf(&self) -> bool {
        &&& self.buffers_wf()
        &&& self.date_line().len() == 35
        &&& self.json().len() <= crate::response::MAX_JSON_BODY
        &&& self.next_id() <= MAX_CONNECTIONS
        &&& forall|k: int| #[trigger]
            self.connections().contains_key(k) ==> {
                &&& self.connections()[k].out.wf()
                &&& 0 <= k < self.next_id()
                &&& self.connections()[k].kernel_buffer_id matches Some(b) ==> b < BUFFERS_COUNT
            }
    }
}

/// `a` asks the kernel to take back exactly the buffers `ids`, in order.
pub open spec fn provides(a: Action, ids: Seq<u16>) -> bool {
    a matches Action::ProvideBuffers { ids: v } && v@ == ids
}

/// Relies on `num_cpus::get`: the number of logical CPUs of this machine.
#[verifier::external_body]
fn cpu_count() -> (r: usize) {
    num_cpus::get()
}

impl Server {
    /// Workers, ring depth, submission polling on, its idle time, realtime
    /// priority on, speculative reads on.
    pub closed spec fn config(&self) -> (u8, u32, bool, u32, bool, bool) {
        (
            self.workers,
            self.uring_size,
            self.sqpoll_enabled,
            self.sqpoll_idle,
            self.realtime,
            self.ub_kernel_dma,
        )
    }

    /// Buffers held by the kernel.
    pub open spec fn registered(&self) -> Set<int> {
        Set::new(|id: int| 0 <= id < BUFFERS_COUNT && self.ownership()[id])
    }

    /// Buffers waiting to be handed back.
    pub open spec fn pending(&self) -> Set<int> {
        Set::new(|id: int| 0 <= id < BUFFERS_COUNT && !self.ownership()[id])
    }

    /// Everything but the buffer bookkeeping is as in `o`.
    pub open spec fn same_but_buffers(&self, o: &Self) -> bool {
        &&& self.same_config(o)
        &&& self.same_conns(o)
        &&& self.same_outbound(o)
        &&& self.same_clock(o)
        &&& self.must_sync() == o.must_sync()
    }

    /// Every buffer is with the kernel and none waits.
    pub open spec fn all_registered(&self) -> bool {
        &&& self.released().len() == 0
        &&& forall|id: int| 0 <= id < BUFFERS_COUNT ==> #[trigger] self.kernel_owned(id)
    }

    /// A worker for `addr` with the default configuration, one worker per CPU,
    /// no connection, every buffer waiting to be handed to the kernel, and its
    /// clocks at `now_ns` (monotonic nanoseconds) and `now_s` (Unix seconds).
    pub fn new(addr: String, now_ns: i64, now_s: i64) -> (r: Server)
        ensures
            r.wf(),
            r.released() == all_buffer_ids(),
            r.connections().dom() == Set::<int>::empty(),
            r.next_id() == 0,
            !r.speculative(),
            r.config().1 == DEFAULT_URING_SIZE,
            !r.config().2,
            r.config().3 == DEFAULT_SQPOLL_IDLE,
            !r.config().4,
            r.config().0 >= 1,
            r.address() == addr,
            r.date_line() == Seq::new(35, |i: int| 0u8),
            r.json().len() == 0,
            r.now_ns() == now_ns,
            r.now_s() == now_s,
            r.synced_second() == 0,
            r.must_sync(),
            !r.sending(),
            r.skipped_flushes() == 0,
            r.last_flush() == 0,
            r.requests_per_second() == 0,
            r.requests_this_second() == 0,
            r.in_flight().len() == 0,
    {
        let cpus = cpu_count();
        let workers: u8 = if cpus == 0 {
            1
        } else if cpus > 255 {
            255
        } else {
            cpus as u8
        };
        let mut in_kernel: Vec<bool> = Vec::with_capacity(BUFFERS_COUNT);
        let mut released_buffers: Vec<u16> = Vec::with_capacity(BUFFERS_COUNT);
        let mut i: usize = 0;
        while i < BUFFERS_COUNT
            invariant
                i <= BUFFERS_COUNT,
                in_kernel@.len() == i,
                released_buffers@ == all_buffer_ids().subrange(0, i as int),
                forall|k: int| 0 <= k < i ==> !#[trigger] in_kernel@[k],
            decreases BUFFERS_COUNT - i,
        {
            in_kernel.push(false);
            released_buffers.push(i as u16);
            i += 1;
            assert(released_buffers@ =~= all_buffer_ids().subrange(0, i as int));
        }
        assert(released_buffers@ =~= all_buffer_ids());
        let mut date: Vec<u8> = Vec::with_capacity(35);
        while date.len() < 35
            invariant
                date@.len() <= 35,
                forall|i: int| 0 <= i < date@.len() ==> date@[i] == 0u8,
            decreases 35 - date@.len(),
        {
            date.push(0u8);
        }
        assert(date@ =~= Seq::new(35, |i: int| 0u8));
        let r = Server {
            addr,
            workers,
            uring_size: DEFAULT_URING_SIZE,
            sqpoll_enabled: false,
            sqpoll_idle: DEFAULT_SQPOLL_IDLE,
            realtime: false,
            ub_kernel_dma: false,
            conns: conns_with_capacity(TABLE_CAPACITY),
            date,
            json_body: Vec::new(),
            sync_now: true,
            pointers: VecDeque::new(),
            released_buffers,
            in_kernel,
            universal_counter: 0,
            io_send_busy: false,
            nano_clock: now_ns,
            clock: now_s,
            last_sync_time: 0,
            rps: 0,
            hz: 0,
            synced: 0,
            rps_counter: 0,
            hz_counter: 0,
        };
        proof {
            assert forall|id: int| 0 <= id < BUFFERS_COUNT implies (!#[trigger] r.in_kernel@[id]
                <==> r.released_buffers@.contains(id as u16)) by {
                assert(r.released_buffers@[id] == id as u16);
            }
            assert(r.released_buffers@.no_duplicates());
        }
        r
    }

    /// Hands every waiting buffer back to the kernel in one batch.
    fn hand_back(&mut self, actions: &mut Vec<Action>)
        requires
            old(self).wf(),
        ensures
            final(self).wf(),
            final(self).all_registered(),
            final(self).same_but_buffers(old(self)),
            final(actions)@ == old(actions)@.push(final(actions)@.last()),
            provides(final(actions)@.last(), old(self).released()),
    {
        let ids = self.released_buffers.clone();
        let mut k: usize = 0;
        while k < BUFFERS_COUNT
            invariant
                k <= BUFFERS_COUNT,
                self.in_kernel@.len() == BUFFERS_COUNT,
                self.released_buffers@ == old(self).released_buffers@,
                self.same_but_buffers(old(self)),
                forall|j: int| 0 <= j < k ==> #[trigger] self.in_kernel@[j],
            decreases BUFFERS_COUNT - k,
        {
            self.in_kernel.set(k, true);
            k += 1;
        }
        self.released_buffers.clear();
        assert(ids@ == old(self).released());
        actions.push(Action::ProvideBuffers { ids });
    }

    /// Registers the whole pool with the kernel: every waiting buffer is handed
    /// over in one batch whose acknowledgements are awaited.
    pub fn register_buffers(&mut self, actions: &mut Vec<Action>)
        requires
            old(self).wf(),
        ensures
            final(self).wf(),
            final(self).all_registered(),
            final(self).same_but_buffers(old(self)),
            final(actions)@ == old(actions)@.push(final(actions)@.last()),
            provides(final(actions)@.last(), old(self).released()),
    {
        self.hand_back(actions);
    }

    /// Hands the released buffers back to the kernel: a submit of what is
    /// queued, then one batch of registrations. With nothing released it does
    /// nothing and asks for nothing.
    pub fn release_buffers(&mut self, actions: &mut Vec<Action>)
        requires
            old(self).wf(),
        ensures
            final(self).wf(),
            handed_back(old(self), final(self), old(actions)@, final(actions)@),
    {
        if self.released_buffers.len() == 0 {
            assert forall|id: int| 0 <= id < BUFFERS_COUNT implies #[trigger] self.kernel_owned(
                id,
            ) by {
                if !self.ownership()[id] {
                    assert(self.released().contains(id as u16));
                }
            }
            return;
        }
        actions.push(Action::Submit);
        self.hand_back(actions);
        assert(actions@.subrange(0, old(actions)@.len() as int) =~= old(actions)@);
    }
}

/// The released buffers of `o` went back to the kernel, giving `n`: every
/// buffer is registered and nothing else changed. With nothing released no
/// operation is asked for; otherwise a submit of what is queued, then one
/// batch registering exactly the released ids, in order.
pub open spec fn handed_back(o: &Server, n: &Server, oa: Seq<Action>, na: Seq<Action>) -> bool {
    &&& n.all_registered()
    &&& n.same_but_buffers(o)
    &&& o.released().len() == 0 ==> *n == *o && na == oa
    &&& o.released().len() > 0 ==> {
        &&& na.len() == oa.len() + 2
        &&& na.subrange(0, oa.len() as int) == oa
        &&& na[oa.len() as int] is Submit
        &&& provides(na.last(), o.released())
    }
}

/// The operations posted for a connection accepted on descriptor `fd` under id
/// `id`: the socket is tuned, a readiness poll is posted in speculative-read
/// mode, and a multi-shot receive is posted.
pub open spec fn accept_actions(fd: i32, id: int, speculative: bool) -> Seq<Action> {
    seq![Action::PrepareSocket { fd }] + (if speculative {
        seq![Action::PollAdd { fd, user_data: cookie_of(id as u32, 0, POLL_EVENT) }]
    } else {
        Seq::empty()
    }) + seq![Action::RecvMulti { fd, user_data: cookie_of(id as u32, 0, INIT_REQUEST) }]
}

/// The operations that closing connection `id` of `conns` asks for: none where
/// there is no such connection or its descriptor is zero.
pub open spec fn close_actions(conns: Map<int, Connection>, id: int) -> Seq<Action> {
    if conns.contains_key(id) && conns[id].fd != 0 {
        seq![Action::Close { fd: conns[id].fd }]
    } else {
        Seq::empty()
    }
}

impl Server {
    /// The buffer pool bookkeeping is as in `o`.
    pub open spec fn same_pool(&self, o: &Self) -> bool {
        self.released() == o.released() && self.ownership() == o.ownership()
    }

    /// The outbound queues and the throttle are as in `o`.
    pub open spec fn same_outbound(&self, o: &Self) -> bool {
        &&& self.in_flight() == o.in_flight()
        &&& self.sending() == o.sending()
        &&& self.last_flush() == o.last_flush()
        &&& self.skipped_flushes() == o.skipped_flushes()
    }

    /// The clock, the counters and the date line are as in `o`.
    pub open spec fn same_clock(&self, o: &Self) -> bool {
        &&& self.now_ns() == o.now_ns()
        &&& self.now_s() == o.now_s()
        &&& self.synced_second() == o.synced_second()
        &&& self.requests_per_second() == o.requests_per_second()
        &&& self.events_per_second() == o.events_per_second()
        &&& self.requests_this_second() == o.requests_this_second()
        &&& self.events_this_second() == o.events_this_second()
        &&& self.date_line() == o.date_line()
    }

    /// The configuration, the address and the JSON body are as in `o`.
    pub open spec fn same_config(&self, o: &Self) -> bool {
        &&& self.address() == o.address()
        &&& self.config() == o.config()
        &&& self.json() == o.json()
    }

    /// The connection table is as in `o`.
    pub open spec fn same_conns(&self, o: &Self) -> bool {
        self.connections() == o.connections() && self.next_id() == o.next_id()
    }

    /// Holds back `reserve` connection ids, recorded with a placeholder
    /// descriptor, so that accepted connections get higher ids.
    pub fn reserve_writes_buffer(&mut self, reserve: usize)
        requires
            old(self).wf(),
            old(self).next_id() + reserve <= MAX_CONNECTIONS,
        ensures
            final(self).wf(),
            final(self).next_id() == old(self).next_id() + reserve,
            final(self).connections().dom() == old(self).connections().dom().union(
                Set::new(|k: int| old(self).next_id() <= k < final(self).next_id()),
            ),
            forall|k: int| #[trigger]
                old(self).connections().contains_key(k) ==> final(self).connections()[k]
                    == old(self).connections()[k],
            forall|k: int|
                old(self).next_id() <= k < final(self).next_id() ==> {
                    &&& (#[trigger] final(self).connections()[k]).fd == PLACEHOLDER_FD
                    &&& final(self).connections()[k].kernel_buffer_id is None
                    &&& final(self).connections()[k].out@ == (
                        Seq::new(DATA_LAKE_SIZE as nat, |i: int| 0u8),
                        0nat,
                    )
                },
            final(self).same_pool(old(self)),
            final(self).same_outbound(old(self)),
            final(self).same_clock(old(self)),
            final(self).same_config(old(self)),
            final(self).must_sync() == old(self).must_sync(),
    {
        let mut i: usize = 0;
        while i < reserve
            invariant
                i <= reserve,
                self.wf(),
                conn_next(self.conns) == conn_next(old(self).conns) + i,
                conn_next(old(self).conns) + reserve <= MAX_CONNECTIONS,
                conn_slots(self.conns).dom() == conn_slots(old(self).conns).dom().union(
                    Set::new(|k: int| conn_next(old(self).conns) <= k < conn_next(self.conns)),
                ),
                forall|k: int| #[trigger]
                    conn_slots(old(self).conns).contains_key(k) ==> conn_slots(self.conns)[k]
                        == conn_slots(old(self).conns)[k],
                forall|k: int|
                    conn_next(old(self).conns) <= k < conn_next(self.conns) ==> {
                        &&& (#[trigger] conn_slots(self.conns)[k]).fd == PLACEHOLDER_FD
                        &&& conn_slots(self.conns)[k].kernel_buffer_id is None
                        &&& conn_slots(self.conns)[k].out@ == (
                            Seq::new(DATA_LAKE_SIZE as nat, |i: int| 0u8),
                            0nat,
                        )
                    },
                old(self).wf(),
                self.same_pool(old(self)),
                self.same_outbound(old(self)),
                self.same_clock(old(self)),
                self.same_config(old(self)),
                self.sync_now == old(self).sync_now,
            decreases reserve - i,
        {
            let c = Connection { fd: PLACEHOLDER_FD, out: TachyonDataLake::build(), kernel_buffer_id: None };
            conns_push(&mut self.conns, c);
            i += 1;
            assert(conn_slots(self.conns).dom() =~= conn_slots(old(self).conns).dom().union(
                Set::new(|k: int| conn_next(old(self).conns) <= k < conn_next(self.conns)),
            ));
        }
    }

    /// Takes in the connection that an accept completion with result `result`
    /// delivered: a non-positive result is ignored; otherwise the descriptor is
    /// recorded under the next connection id, which no live connection uses,
    /// with an empty staging lake, and its receive (and, in speculative-read
    /// mode, its readiness poll) is posted.
    pub fn process_entry_accept(
        &mut self,
        result: i32,
        actions: &mut Vec<Action>,
    ) -> (r: Result<(), WorkerError>)
        requires
            old(self).wf(),
        ensures
            final(self).wf(),
            final(self).same_pool(old(self)),
            final(self).same_outbound(old(self)),
            final(self).same_clock(old(self)),
            final(self).same_config(old(self)),
            accepted(old(self), final(self), old(actions)@, final(actions)@, result, r is Ok),
    {
        if result <= 0 {
            return Ok(());
        }
        let fd = result;
        let next = conns_next_push_index(&self.conns);
        if next as u64 >= MAX_CONNECTIONS {
            return Err(WorkerError::ConnectionIdRange);
        }
        actions.push(Action::PrepareSocket { fd });
        let lake = TachyonDataLake::<DATA_LAKE_SIZE>::build();
        let c = Connection { fd, out: lake, kernel_buffer_id: None };
        let id = conns_push(&mut self.conns, c);
        if self.ub_kernel_dma {
            let poll = UserData { client_id: id as u32, buffer_id: 0, uniq_id: POLL_EVENT };
            actions.push(Action::PollAdd { fd, user_data: poll.pack_user_data() });
        }
        let recv = UserData { client_id: id as u32, buffer_id: 0, uniq_id: INIT_REQUEST };
        actions.push(Action::RecvMulti { fd, user_data: recv.pack_user_data() });
        self.sync_now = true;
        assert(conn_slots(self.conns).dom() =~= conn_slots(old(self).conns).dom().insert(id as int));
        assert(actions@ =~= old(actions)@ + accept_actions(fd, id as int, self.ub_kernel_dma));
        Ok(())
    }

    /// Closes connection `client_id`. A forced close also drops it from the
    /// table; either way its descriptor is closed, unless it is zero (standard
    /// input), which is refused. An unknown id is ignored.
    pub fn close_connection(&mut self, client_id: usize, force: bool, actions: &mut Vec<Action>)
        requires
            old(self).wf(),
        ensures
            final(self).wf(),
            final(self).same_pool(old(self)),
            final(self).same_outbound(old(self)),
            final(self).same_clock(old(self)),
            final(self).same_config(old(self)),
            final(self).must_sync() == old(self).must_sync(),
            final(self).next_id() == old(self).next_id(),
            force ==> final(self).connections() == old(self).connections().remove(client_id as int),
            !force ==> final(self).same_conns(old(self)),
            final(actions)@ == old(actions)@ + close_actions(old(self).connections(), client_id as int),
    {
        let mut cfd: Option<i32> = None;
        if !force {
            match conns_get(&self.conns, client_id) {
                Some(c) => {
                    cfd = Some(c.fd);
                },
                None => {},
            }
        } else if conns_has(&self.conns, client_id) {
            match conns_remove(&mut self.conns, client_id) {
                Some(c) => {
                    cfd = Some(c.fd);
                },
                None => {},
            }
        }
        if !force {
            assert(conn_slots(self.conns) == conn_slots(old(self).conns));
        } else {
            assert(conn_slots(self.conns) =~= conn_slots(old(self).conns).remove(client_id as int));
        }
        match cfd {
            Some(fd) => {
                if fd == 0 {
                    assert(close_actions(old(self).connections(), client_id as int) =~= Seq::empty());
                    assert(actions@ =~= old(actions)@ + Seq::<Action>::empty());
                    return;
                }
                actions.push(Action::Close { fd });
                assert(actions@ =~= old(actions)@ + close_actions(old(self).connections(), client_id as int));
            },
            None => {
                assert(actions@ =~= old(actions)@ + close_actions(old(self).connections(), client_id as int));
            },
        }
    }
}

/// The received bytes of buffer `id`: its first `len` bytes in the pool.
pub open spec fn received(pool: Seq<u8>, id: int, len: int) -> Seq<u8> {
    pool.subrange(id * BUFFER_SIZE, id * BUFFER_SIZE + len)
}

/// The whole area of buffer `id` in the pool.
pub open spec fn buffer_area(pool: Seq<u8>, id: int) -> Seq<u8> {
    pool.subrange(id * BUFFER_SIZE, id * BUFFER_SIZE + BUFFER_SIZE)
}

/// The staging lake `l` after `bytes` are written to it.
pub open spec fn staged_after(l: TachyonDataLake<DATA_LAKE_SIZE>, bytes: Seq<u8>) -> (Seq<u8>, nat) {
    (
        TachyonDataLake::<DATA_LAKE_SIZE>::area_after(l@.0, l@.1, bytes),
        TachyonDataLake::<DATA_LAKE_SIZE>::cursor_after(l@.1, bytes.len()),
    )
}

/// `a + b`, held at `u64::MAX`.
pub open spec fn sat_add(a: u64, b: int) -> u64 {
    if a + b > u64::MAX {
        u64::MAX
    } else {
        (a + b) as u64
    }
}

impl Server {
    /// Connection `cid` of `new` is that of `old` with `bytes` written to its
    /// lake and, where `kbuf` is given, that kernel buffer recorded; the other
    /// connections are unchanged. Nothing changes where `cid` is not live.
    pub open spec fn staged_into(
        old: &Server,
        new: &Server,
        cid: int,
        bytes: Seq<u8>,
        kbuf: Option<u16>,
    ) -> bool {
        &&& new.next_id() == old.next_id()
        &&& new.connections().dom() == old.connections().dom()
        &&& forall|k: int| #[trigger]
            old.connections().contains_key(k) && k != cid ==> new.connections()[k]
                == old.connections()[k]
        &&& old.connections().contains_key(cid) ==> {
            &&& new.connections()[cid].fd == old.connections()[cid].fd
            &&& new.connections()[cid].out@ == staged_after(old.connections()[cid].out, bytes)
            &&& new.connections()[cid].kernel_buffer_id == match kbuf {
                Some(b) => Some(b),
                None => old.connections()[cid].kernel_buffer_id,
            }
        }
    }

    /// Writes `bytes` to the staging lake of connection `cid` and records
    /// `kbuf` as its last kernel buffer, where given.
    fn stage(&mut self, cid: usize, bytes: &[u8], kbuf: Option<u16>)
        requires
            old(self).wf(),
            bytes@.len() <= DATA_LAKE_SIZE,
            kbuf matches Some(b) ==> b < BUFFERS_COUNT,
        ensures
            final(self).wf(),
            Self::staged_into(old(self), final(self), cid as int, bytes@, kbuf),
            final(self).same_pool(old(self)),
            final(self).same_outbound(old(self)),
            final(self).same_clock(old(self)),
            final(self).same_config(old(self)),
            final(self).sync_now == old(self).sync_now,
    {
        if !conns_has(&self.conns, cid) {
            return;
        }
        let removed = conns_remove(&mut self.conns, cid);
        match removed {
            Some(c) => {
                let mut c = c;
                c.out.write(bytes);
                match kbuf {
                    Some(b) => {
                        c.kernel_buffer_id = Some(b);
                    },
                    None => {},
                }
                conns_insert(&mut self.conns, cid, c);
                assert(conn_slots(self.conns).dom() =~= conn_slots(old(self).conns).dom());
            },
            None => {},
        }
    }

    /// Answers a receive completion on connection `user_data.client_id`: the
    /// kernel filled the first `result` bytes of the buffer named in the upper
    /// half of `flags`. A byte count above the buffer size, an id outside the
    /// pool, or a buffer the kernel does not hold (a stale completion) is
    /// dropped. Otherwise the request lines found there are answered into the
    /// connection's staging lake, the buffer joins the released queue, which
    /// is handed back once it reaches the threshold, and in speculative-read
    /// mode the buffer is remembered and, where its last byte is zero, shifted.
    #[verifier::rlimit(30)]
    pub fn request_reply(
        &mut self,
        flags: u32,
        user_data: UserData,
        result: i32,
        pool: &[u8],
        actions: &mut Vec<Action>,
    )
        requires
            old(self).wf(),
            pool@.len() == BUFFERS_COUNT * BUFFER_SIZE,
            result > 0,
        ensures
            final(self).wf(),
            replied(
                old(self),
                final(self),
                old(actions)@,
                final(actions)@,
                flags,
                user_data,
                result,
                pool@,
            ),
    {
        assert((flags >> 16u32) < 0x1_0000) by (bit_vector);
        let buf_id: u16 = (flags >> 16u32) as u16;
        let cid: usize = user_data.client_id as usize;
        if result as usize > BUFFER_SIZE {
            return;
        }
        if buf_id as usize >= BUFFERS_COUNT || !self.in_kernel[buf_id as usize] {
            return;
        }
        let len = result as usize;
        let start = buf_id as usize * BUFFER_SIZE;
        let data = vstd::slice::slice_subrange(pool, start, start + len);
        let entries = crate::http::parse_http_methods_paths(data, MAX_REQUESTS);
        self.rps_counter = self.rps_counter.saturating_add(entries.len() as u64);
        let mut hot: Vec<u8> = Vec::new();
        assert(entries@.len() * crate::response::MAX_RESPONSE <= MAX_REQUESTS
            * crate::response::MAX_RESPONSE) by (nonlinear_arith)
            requires
                entries@.len() <= MAX_REQUESTS,
        ;
        crate::response::respond_to_entries(
            data,
            &entries,
            self.date.as_slice(),
            self.json_body.as_slice(),
            &mut hot,
        );
        let kbuf = if self.ub_kernel_dma {
            Some(buf_id)
        } else {
            None
        };
        self.stage(cid, hot.as_slice(), kbuf);
        self.sync_now = true;
        let ghost before = *self;
        self.released_buffers.push(buf_id);
        self.in_kernel.set(buf_id as usize, false);
        proof {
            assert(self.released_buffers@.no_duplicates()) by {
                assert(!before.released_buffers@.contains(buf_id));
            }
            assert forall|b: int| 0 <= b < BUFFERS_COUNT implies (!#[trigger] self.in_kernel@[b]
                <==> self.released_buffers@.contains(b as u16)) by {
                if b != buf_id as int {
                    if self.released_buffers@.contains(b as u16) {
                        let w = choose|w: int|
                            0 <= w < self.released_buffers@.len() && self.released_buffers@[w]
                                == b as u16;
                        assert(w < before.released_buffers@.len());
                        assert(before.released_buffers@[w] == b as u16);
                    }
                    if before.released_buffers@.contains(b as u16) {
                        let w = choose|w: int|
                            0 <= w < before.released_buffers@.len()
                                && before.released_buffers@[w] == b as u16;
                        assert(self.released_buffers@[w] == b as u16);
                    }
                } else {
                    assert(self.released_buffers@[self.released_buffers@.len() - 1] == buf_id);
                }
            }
        }
        let ghost after_push = actions@;
        if self.ub_kernel_dma && pool[start + BUFFER_SIZE - 1] == 0u8 {
            actions.push(Action::ShiftBuffer { buffer_id: buf_id, len });
            assert(actions@ =~= old(actions)@ + seq![Action::ShiftBuffer { buffer_id: buf_id, len }]);
        } else {
            assert(actions@ =~= old(actions)@ + Seq::<Action>::empty());
        }
        let ghost shifted = actions@;
        if self.released_buffers.len() == RELEASE_THRESHOLD {
            self.release_buffers(actions);
            assert(actions@.subrange(0, shifted.len() as int) =~= shifted);
        }
        assert(actions@.subrange(0, shifted.len() as int) =~= shifted);
    }
}

/// What a speculative read sees in buffer area `area`: the area without its
/// leading zero bytes.
pub open spec fn speculative_view(area: Seq<u8>) -> Seq<u8> {
    area.subrange(crate::trim::first_nonzero(area, 0), area.len() as int)
}

impl Server {
    /// Speculative read on a readiness event of connection `client.client_id`:
    /// the kernel buffer its last receive used is read as it stands, without
    /// its leading zeros. Where no request line is found there, the
    /// connection's type-of-service is raised; where its lake already holds a
    /// pending response, nothing is done; otherwise the requests are answered
    /// into its lake. A connection with no recorded buffer is left alone.
    pub fn ubdma(&mut self, client: UserData, pool: &[u8], actions: &mut Vec<Action>)
        requires
            old(self).wf(),
            pool@.len() == BUFFERS_COUNT * BUFFER_SIZE,
        ensures
            final(self).wf(),
            speculated(old(self), final(self), old(actions)@, final(actions)@, client, pool@),
    {
        let cid: usize = client.client_id as usize;
        let (fd, kb, pending) = match conns_get(&self.conns, cid) {
            Some(c) => match c.kernel_buffer_id {
                Some(kb) => (c.fd, kb, c.out.len()),
                None => {
                    return;
                },
            },
            None => {
                return;
            },
        };
        let start = kb as usize * BUFFER_SIZE;
        let area = vstd::slice::slice_subrange(pool, start, start + BUFFER_SIZE);
        let view = crate::trim::l_trim256(area);
        let entries = crate::http::unreliable_parse_http_methods_paths(view, MAX_REQUESTS);
        if entries.len() == 0 {
            actions.push(Action::RaiseTos { fd, tos: TOS_HIGH_PRIORITY });
            return;
        }
        if pending != 0 {
            return;
        }
        self.rps_counter = self.rps_counter.saturating_add(entries.len() as u64);
        let mut hot: Vec<u8> = Vec::new();
        assert(entries@.len() * crate::response::MAX_RESPONSE <= MAX_REQUESTS
            * crate::response::MAX_RESPONSE) by (nonlinear_arith)
            requires
                entries@.len() <= MAX_REQUESTS,
        ;
        crate::response::respond_to_entries(
            view,
            &entries,
            self.date.as_slice(),
            self.json_body.as_slice(),
            &mut hot,
        );
        self.stage(cid, hot.as_slice(), None);
        self.sync_now = true;
    }
}

/// Minimum spacing of two flushes, in nanoseconds, at `rps` requests per second.
pub open spec fn flush_spacing(rps: u64) -> int {
    if rps >= 1_000_000 {
        2_000
    } else if rps >= 500_000 {
        1_000
    } else {
        0
    }
}

/// The keep-alive queue cut back to its most recent snapshots once it reaches
/// the ceiling.
pub open spec fn kept(q: Seq<Vec<u8>>) -> Seq<Vec<u8>> {
    if q.len() >= KEEPALIVE_CEILING {
        q.subrange(q.len() - KEEPALIVE_KEEP, q.len() as int)
    } else {
        q
    }
}

/// The ids below `hi` of the connections with staged bytes, in increasing order.
pub open spec fn flush_ids(conns: Map<int, Connection>, hi: int) -> Seq<int>
    decreases hi,
{
    if hi <= 0 {
        Seq::empty()
    } else if conns.contains_key(hi - 1) && conns[hi - 1].out@.1 > 0 {
        flush_ids(conns, hi - 1).push(hi - 1)
    } else {
        flush_ids(conns, hi - 1)
    }
}

/// One send per connection of `ids`, its snapshot at keep-alive slot `base + j`.
pub open spec fn send_actions(conns: Map<int, Connection>, ids: Seq<int>, base: int) -> Seq<Action> {
    Seq::new(
        ids.len(),
        |j: int|
            Action::Send {
                fd: conns[ids[j]].fd,
                user_data: cookie_of(ids[j] as u32, 0, crate::user_data::SEND_EVENT),
                slot: (base + j) as usize,
            },
    )
}

proof fn lemma_flush_ids_below(conns: Map<int, Connection>, hi: int)
    ensures
        forall|j: int| 0 <= j < flush_ids(conns, hi).len() ==> {
            &&& 0 <= #[trigger] flush_ids(conns, hi)[j] < hi
            &&& conns.contains_key(flush_ids(conns, hi)[j])
            &&& conns[flush_ids(conns, hi)[j]].out@.1 > 0
        },
        flush_ids(conns, hi).len() <= if hi > 0 { hi } else { 0 },
    decreases hi,
{
    if hi > 0 {
        lemma_flush_ids_below(conns, hi - 1);
    }
}

/// A flush sends once to each connection below `hi` with staged bytes, in
/// increasing id order, and to no other connection.
pub proof fn lemma_flush_sends_each_once(conns: Map<int, Connection>, hi: int)
    ensures
        flush_ids(conns, hi).no_duplicates(),
        forall|a: int, b: int|
            0 <= a < b < flush_ids(conns, hi).len() ==> flush_ids(conns, hi)[a] < flush_ids(
                conns,
                hi,
            )[b],
        forall|k: int|
            flush_ids(conns, hi).contains(k) <==> (0 <= k < hi && conns.contains_key(k)
                && conns[k].out@.1 > 0),
    decreases hi,
{
    lemma_flush_ids_below(conns, hi);
    if hi > 0 {
        lemma_flush_sends_each_once(conns, hi - 1);
        lemma_flush_ids_below(conns, hi - 1);
        let prev = flush_ids(conns, hi - 1);
        let cur = flush_ids(conns, hi);
        assert forall|k: int| cur.contains(k) <==> (0 <= k < hi && conns.contains_key(k)
            && conns[k].out@.1 > 0) by {
            if conns.contains_key(hi - 1) && conns[hi - 1].out@.1 > 0 {
                if k == hi - 1 {
                    assert(cur[cur.len() - 1] == k);
                } else if prev.contains(k) {
                    let w = choose|w: int| 0 <= w < prev.len() && prev[w] == k;
                    assert(cur[w] == k);
                } else if cur.contains(k) {
                    let w = choose|w: int| 0 <= w < cur.len() && cur[w] == k;
                    if w < prev.len() {
                        assert(prev[w] == k);
                    }
                }
            }
        }
    }
}

impl Server {
    /// Flushes the staging lakes: once per loop turn, each connection with
    /// staged bytes gets one send of a snapshot of them, kept alive in the
    /// keep-alive queue, and its cursor goes back to zero. Outside
    /// speculative-read mode a throttle skips the flush while less time than
    /// the spacing for the observed request rate has passed since the last.
    /// The keep-alive queue is first cut back when it has reached its ceiling.
    pub fn wideband_send(&mut self, actions: &mut Vec<Action>)
        requires
            old(self).wf(),
        ensures
            final(self).wf(),
            final(self).same_pool(old(self)),
            final(self).same_clock(old(self)),
            final(self).same_config(old(self)),
            final(self).next_id() == old(self).next_id(),
            ({
                let q = kept(old(self).in_flight());
                let conns = old(self).connections();
                let throttled = !old(self).speculative() && (old(self).now_ns() as int - old(
                    self,
                ).last_flush() as int) < flush_spacing(old(self).requests_per_second());
                if throttled {
                    &&& final(self).in_flight() == q
                    &&& final(self).skipped_flushes() == sat_add(old(self).skipped_flushes(), 1)
                    &&& final(self).same_conns(old(self))
                    &&& final(self).last_flush() == old(self).last_flush()
                    &&& final(self).must_sync() == old(self).must_sync()
                    &&& final(self).sending() == old(self).sending()
                    &&& final(actions)@ == old(actions)@
                } else if conns.dom().len() == 0 {
                    &&& final(self).in_flight() == q
                    &&& final(self).skipped_flushes() == old(self).skipped_flushes()
                    &&& final(self).same_conns(old(self))
                    &&& final(self).last_flush() == if old(self).speculative() {
                        old(self).last_flush()
                    } else {
                        old(self).now_ns()
                    }
                    &&& final(self).must_sync() == old(self).must_sync()
                    &&& final(self).sending() == old(self).sending()
                    &&& final(actions)@ == old(actions)@
                } else {
                    let ids = flush_ids(conns, old(self).next_id() as int);
                    &&& final(self).in_flight().len() == q.len() + ids.len()
                    &&& final(self).in_flight().subrange(0, q.len() as int) == q
                    &&& forall|j: int|
                        0 <= j < ids.len() ==> (#[trigger] final(self).in_flight()[q.len() + j])@
                            == conns[ids[j]].out.staged()
                    &&& final(actions)@ == old(actions)@ + send_actions(conns, ids, q.len() as int)
                    &&& final(self).connections().dom() == conns.dom()
                    &&& forall|k: int| #[trigger]
                        conns.contains_key(k) ==> {
                            &&& final(self).connections()[k].fd == conns[k].fd
                            &&& final(self).connections()[k].kernel_buffer_id
                                == conns[k].kernel_buffer_id
                            &&& final(self).connections()[k].out@ == (conns[k].out@.0, 0nat)
                        }
                    &&& final(self).skipped_flushes() == old(self).skipped_flushes()
                    &&& final(self).last_flush() == old(self).now_ns()
                    &&& final(self).must_sync()
                    &&& final(self).sending() == (old(self).sending() || ids.len() > 0)
                }
            }),
    {
        let qlen = self.pointers.len();
        if qlen >= KEEPALIVE_CEILING {
            let tail = self.pointers.split_off(qlen - KEEPALIVE_KEEP);
            self.pointers = tail;
        }
        if !self.ub_kernel_dma {
            let diff: i128 = self.nano_clock as i128 - self.last_sync_time as i128;
            let mut stopper: i128 = 0;
            if self.rps >= 500_000 {
                stopper = 1_000;
            }
            if self.rps >= 1_000_000 {
                stopper = 2_000;
            }
            if diff < stopper {
                self.universal_counter = self.universal_counter.saturating_add(1);
                return;
            }
            self.last_sync_time = self.nano_clock;
        }
        if conns_num_elements(&self.conns) == 0 {
            return;
        }
        self.last_sync_time = self.nano_clock;
        let ghost conns = conn_slots(self.conns);
        let ghost q = self.pointers@;
        let next = conns_next_push_index(&self.conns);
        let mut any_sent = false;
        let mut idx: usize = 0;
        proof {
            lemma_flush_ids_below(conns, next as int);
        }
        while idx < next
            invariant
                idx <= next,
                next == conn_next(self.conns),
                conns == conn_slots(old(self).conns),
                old(self).wf(),
                self.wf(),
                q == kept(old(self).pointers@),
                conn_slots(self.conns).dom() == conns.dom(),
                forall|k: int| #[trigger]
                    conns.contains_key(k) ==> if k < idx {
                        &&& conn_slots(self.conns)[k].fd == conns[k].fd
                        &&& conn_slots(self.conns)[k].kernel_buffer_id == conns[k].kernel_buffer_id
                        &&& conn_slots(self.conns)[k].out@ == (conns[k].out@.0, 0nat)
                    } else {
                        conn_slots(self.conns)[k] == conns[k]
                    },
                self.pointers@.len() == q.len() + flush_ids(conns, idx as int).len(),
                self.pointers@.subrange(0, q.len() as int) == q,
                forall|j: int|
                    0 <= j < flush_ids(conns, idx as int).len() ==> (#[trigger] self.pointers@[q.len()
                        + j])@ == conns[flush_ids(conns, idx as int)[j]].out.staged(),
                actions@ == old(actions)@ + send_actions(conns, flush_ids(conns, idx as int), q.len() as int),
                any_sent == (flush_ids(conns, idx as int).len() > 0),
                self.same_pool(old(self)),
                self.same_clock(old(self)),
                self.same_config(old(self)),
                self.sync_now == old(self).sync_now,
                self.io_send_busy == old(self).io_send_busy,
                self.universal_counter == old(self).universal_counter,
                self.last_sync_time == old(self).nano_clock,
            decreases next - idx,
        {
            let ghost ids0 = flush_ids(conns, idx as int);
            let ghost before = self.pointers@;
            proof {
                lemma_flush_ids_below(conns, idx as int);
            }
            let has = conns_has(&self.conns, idx);
            let mut sent_here = false;
            if has {
                let removed = conns_remove(&mut self.conns, idx);
                match removed {
                    Some(c) => {
                        let mut c = c;
                        if c.out.len() != 0 {
                            let fd = c.fd;
                            let snapshot = vstd::slice::slice_to_vec(c.out.as_slice());
                            self.pointers.push_back(snapshot);
                            let slot = self.pointers.len() - 1;
                            let cookie = UserData {
                                client_id: idx as u32,
                                buffer_id: 0,
                                uniq_id: crate::user_data::SEND_EVENT,
                            };
                            actions.push(Action::Send { fd, user_data: cookie.pack_user_data(), slot });
                            c.out.reset_pos();
                            sent_here = true;
                        }
                        conns_insert(&mut self.conns, idx, c);
                    },
                    None => {},
                }
            }
            if sent_here {
                any_sent = true;
            }
            idx += 1;
            proof {
                assert(conn_slots(self.conns).dom() =~= conns.dom());
                if sent_here {
                    assert(flush_ids(conns, idx as int) == ids0.push(idx - 1));
                    assert(send_actions(conns, flush_ids(conns, idx as int), q.len() as int) =~= send_actions(
                        conns,
                        ids0,
                        q.len() as int,
                    ).push(actions@.last()));
                    assert(self.pointers@.subrange(0, q.len() as int) =~= before.subrange(0, q.len() as int));
                    assert forall|j: int|
                        0 <= j < flush_ids(conns, idx as int).len() implies (#[trigger] self.pointers@[q.len()
                            + j])@ == conns[flush_ids(conns, idx as int)[j]].out.staged() by {
                        if j < ids0.len() {
                            assert(self.pointers@[q.len() + j] == before[q.len() + j]);
                        }
                    }
                } else {
                    assert(flush_ids(conns, idx as int) == ids0);
                }
            }
        }
        if any_sent {
            self.io_send_busy = true;
        }
        self.sync_now = true;
    }
}

/// The effect of `request_reply` on a worker, from `o` to `n`, with the
/// operations asked for going from `oa` to `na`.
pub open spec fn replied(
    o: &Server,
    n: &Server,
    oa: Seq<Action>,
    na: Seq<Action>,
    flags: u32,
    user_data: UserData,
    result: i32,
    pool: Seq<u8>,
) -> bool {
        let id = (flags >> 16u32) as u16;
        let len = result as int;
        let cid = user_data.client_id as int;
        if len > BUFFER_SIZE || id >= BUFFERS_COUNT || !o.kernel_owned(id as int) {
            *n == *o && na == oa
        } else {
            let data = received(pool, id as int, len);
            let found = crate::http::requests(data, MAX_REQUESTS as nat);
            let bytes = crate::response::responses(
                data,
                found,
                o.date_line(),
                o.json(),
            );
            let pushed = o.released().push(id);
            let shift = if o.speculative() && pool[id * BUFFER_SIZE + BUFFER_SIZE
                - 1] == 0 {
                seq![Action::ShiftBuffer { buffer_id: id, len: len as usize }]
            } else {
                Seq::empty()
            };
            &&& Server::staged_into(
                o,
                n,
                cid,
                bytes,
                if o.speculative() {
                    Some(id)
                } else {
                    None
                },
            )
            &&& n.requests_this_second() == sat_add(
                o.requests_this_second(),
                found.len() as int,
            )
            &&& n.must_sync()
            &&& n.same_outbound(o)
            &&& n.same_config(o)
            &&& n.date_line() == o.date_line()
            &&& na.subrange(0, (oa.len() + shift.len()) as int)
                == oa + shift
            &&& if pushed.len() == RELEASE_THRESHOLD {
                &&& n.all_registered()
                &&& na.len() == oa.len() + shift.len() + 2
                &&& na[(oa.len() + shift.len()) as int] is Submit
                &&& provides(na.last(), pushed)
            } else {
                &&& n.released() == pushed
                &&& !n.kernel_owned(id as int)
                &&& forall|b: int|
                    0 <= b < BUFFERS_COUNT && b != id
                        ==> #[trigger] n.kernel_owned(b) == o.kernel_owned(b)
                &&& na.len() == oa.len() + shift.len()
            }
        }
}

/// The effect of `ubdma` on a worker, from `o` to `n`, with the operations
/// asked for going from `oa` to `na`.
pub open spec fn speculated(
    o: &Server,
    n: &Server,
    oa: Seq<Action>,
    na: Seq<Action>,
    client: UserData,
    pool: Seq<u8>,
) -> bool {
        let cid = client.client_id as int;
        let conns = o.connections();
        if !conns.contains_key(cid) || conns[cid].kernel_buffer_id is None {
            *n == *o && na == oa
        } else {
            let kb = conns[cid].kernel_buffer_id->Some_0;
            let view = speculative_view(buffer_area(pool, kb as int));
            let found = crate::http::fast_requests(view, MAX_REQUESTS as nat);
            if found.len() == 0 {
                &&& *n == *o
                &&& na == oa.push(
                    Action::RaiseTos { fd: conns[cid].fd, tos: TOS_HIGH_PRIORITY },
                )
            } else if conns[cid].out@.1 != 0 {
                *n == *o && na == oa
            } else {
                &&& Server::staged_into(
                    o,
                    n,
                    cid,
                    crate::response::responses(
                        view,
                        found,
                        o.date_line(),
                        o.json(),
                    ),
                    None,
                )
                &&& n.requests_this_second() == sat_add(
                    o.requests_this_second(),
                    found.len() as int,
                )
                &&& n.must_sync()
                &&& n.same_pool(o)
                &&& n.same_outbound(o)
                &&& n.same_config(o)
                &&& n.date_line() == o.date_line()
                &&& na == oa
            }
        }
}

/// The effect of `process_entry_accept` on a worker, from `o` to `n`, with
/// the operations asked for going from `oa` to `na`; `ok` tells whether it
/// succeeded.
pub open spec fn accepted(
    o: &Server,
    n: &Server,
    oa: Seq<Action>,
    na: Seq<Action>,
    result: i32,
    ok: bool,
) -> bool {
    &&& n.same_pool(o)
    &&& n.same_outbound(o)
    &&& n.same_clock(o)
    &&& n.same_config(o)
    &&& result <= 0 ==> ok && *n == *o && na == oa
    &&& result > 0 && o.next_id() >= MAX_CONNECTIONS ==> !ok && *n == *o && na == oa
    &&& result > 0 && o.next_id() < MAX_CONNECTIONS ==> {
        let id = o.next_id() as int;
        &&& ok
        &&& !o.connections().contains_key(id)
        &&& n.next_id() == id + 1
        &&& n.connections().dom() == o.connections().dom().insert(id)
        &&& forall|k: int| #[trigger]
            o.connections().contains_key(k) ==> n.connections()[k] == o.connections()[k]
        &&& n.connections()[id].fd == result
        &&& n.connections()[id].kernel_buffer_id is None
        &&& n.connections()[id].out@ == (Seq::new(DATA_LAKE_SIZE as nat, |i: int| 0u8), 0nat)
        &&& na == oa + accept_actions(result, id, o.speculative())
        &&& n.must_sync()
    }
}

/// How the worker treats a completion of a request-related operation.
#[derive(Debug, Clone, Copy, PartialEq, Eq, Structural)]
pub enum Completion {
    /// Transient, harmless or a successful send: nothing to do.
    Ignored,
    /// The kernel ran out of buffers: hand the released ones back.
    OutOfBuffers,
    /// The peer closed or reset the connection.
    Closed,
    /// Readiness of a connection in speculative-read mode.
    Speculative,
    /// Bytes were received.
    Received,
}

/// The class of a completion of operation `user` with result `result`.
pub open spec fn classify(user: UserData, result: i32, speculative: bool) -> Completion {
    if result == -EAGAIN || result == -EBADF || result == -EPIPE {
        Completion::Ignored
    } else if result == -ENOBUFS {
        Completion::OutOfBuffers
    } else if (result == 0 && user.uniq_id != crate::user_data::SEND_EVENT) || result
        == -ECONNRESET {
        Completion::Closed
    } else if result < 0 {
        Completion::Ignored
    } else if user.uniq_id == POLL_EVENT && speculative {
        Completion::Speculative
    } else if user.uniq_id == crate::user_data::SEND_EVENT || result == 0 {
        Completion::Ignored
    } else {
        Completion::Received
    }
}

/// The effect of `process_entry_response` on a worker, from `o` to `n`, with
/// the operations asked for going from `oa` to `na`.
pub open spec fn responded(
    o: &Server,
    n: &Server,
    oa: Seq<Action>,
    na: Seq<Action>,
    user_data: u64,
    result: i32,
    flags: u32,
    pool: Seq<u8>,
) -> bool {
    let user = crate::user_data::fields_of(user_data);
    let cid = user.client_id as int;
    match classify(user, result, o.speculative()) {
        Completion::Ignored => *n == *o && na == oa,
        Completion::OutOfBuffers => handed_back(o, n, oa, na),
        Completion::Closed => {
            &&& n.connections() == o.connections().remove(cid)
            &&& n.next_id() == o.next_id()
            &&& na == oa + close_actions(o.connections(), cid)
            &&& n.same_pool(o)
            &&& n.same_outbound(o)
            &&& n.same_clock(o)
            &&& n.same_config(o)
        },
        Completion::Speculative => speculated(o, n, oa, na, user, pool),
        Completion::Received => replied(o, n, oa, na, flags, user, result, pool),
    }
}

impl Server {
    /// Handles the completion of a receive, readiness poll or send whose
    /// cookie is `user_data`, by its class: transient errors and send
    /// completions are ignored, running out of buffers hands the released
    /// ones back, a zero-byte receive or a reset closes the connection, and
    /// received bytes (or, in speculative-read mode, readiness) are answered.
    pub fn process_entry_response(
        &mut self,
        user_data: u64,
        result: i32,
        flags: u32,
        pool: &[u8],
        actions: &mut Vec<Action>,
    )
        requires
            old(self).wf(),
            pool@.len() == BUFFERS_COUNT * BUFFER_SIZE,
        ensures
            final(self).wf(),
            responded(
                old(self),
                final(self),
                old(actions)@,
                final(actions)@,
                user_data,
                result,
                flags,
                pool@,
            ),
    {
        let user = UserData::unpack_user_data(user_data);
        let client_id = user.client_id as usize;
        if result == -EAGAIN || result == -EBADF || result == -EPIPE {
            return;
        }
        if result == -ENOBUFS {
            self.release_buffers(actions);
            return;
        }
        if (result == 0 && user.uniq_id != crate::user_data::SEND_EVENT) || result == -ECONNRESET {
            self.close_connection(client_id, true, actions);
            return;
        }
        if result < 0 {
            return;
        }
        if user.uniq_id == POLL_EVENT && self.ub_kernel_dma {
            self.ubdma(user, pool, actions);
            return;
        }
        if user.uniq_id == crate::user_data::SEND_EVENT {
            return;
        }
        if result > 0 {
            self.request_reply(flags, user, result, pool, actions);
        }
    }

    /// Handles one completion: buffer-registration acknowledgements and
    /// unknown cookies are ignored, accepts take in a connection, and cookies
    /// in the request range go to `process_entry_response`.
    pub fn process_entry(
        &mut self,
        user_data: u64,
        result: i32,
        flags: u32,
        pool: &[u8],
        actions: &mut Vec<Action>,
    ) -> (r: Result<(), WorkerError>)
        requires
            old(self).wf(),
            pool@.len() == BUFFERS_COUNT * BUFFER_SIZE,
        ensures
            final(self).wf(),
            user_data == crate::user_data::CODE_ACCEPT ==> accepted(
                old(self),
                final(self),
                old(actions)@,
                final(actions)@,
                result,
                r is Ok,
            ),
            user_data >= crate::user_data::REQ_RESP_OFFSET ==> r is Ok && responded(
                old(self),
                final(self),
                old(actions)@,
                final(actions)@,
                user_data,
                result,
                flags,
                pool@,
            ),
            user_data != crate::user_data::CODE_ACCEPT && user_data
                < crate::user_data::REQ_RESP_OFFSET ==> r is Ok && *final(self) == *old(self)
                && final(actions)@ == old(actions)@,
    {
        if user_data == crate::user_data::BUFFER_REGISTER_CODE && result == 0 && flags == 0 {
            return Ok(());
        }
        if user_data == crate::user_data::CODE_ACCEPT {
            return self.process_entry_accept(result, actions);
        }
        if user_data >= crate::user_data::REQ_RESP_OFFSET {
            self.process_entry_response(user_data, result, flags, pool, actions);
        }
        Ok(())
    }
}

/// Why a configuration cannot run.
#[derive(Debug, Clone, Copy, PartialEq, Eq, Structural)]
pub enum ConfigError {
    /// Realtime priority and speculative reads were both asked for.
    RealtimeWithSpeculativeReads,
}

impl Server {
    /// Refreshes the worker clock at the start of a loop turn. When the
    /// calendar second changed, the per-second counters are rolled over into
    /// the observed rates and the date line is regenerated; the result tells
    /// whether that happened.
    pub fn sq_poll_tick(&mut self, now_ns: i64, now_s: i64) -> (r: bool)
        requires
            old(self).wf(),
        ensures
            final(self).wf(),
            r == (now_s != old(self).synced_second()),
            final(self).now_ns() == now_ns,
            final(self).now_s() == now_s,
            final(self).same_pool(old(self)),
            final(self).same_outbound(old(self)),
            final(self).same_config(old(self)),
            final(self).same_conns(old(self)),
            final(self).must_sync() == old(self).must_sync(),
            r ==> final(self).requests_per_second() == old(self).requests_this_second()
                && final(self).requests_this_second() == 0 && final(self).date_line()
                == crate::nano_clock::http_date(now_s as int) && final(self).events_per_second()
                == old(self).events_this_second() && final(self).events_this_second() == 0
                && final(self).synced_second() == now_s,
            !r ==> final(self).requests_per_second() == old(self).requests_per_second()
                && final(self).requests_this_second() == old(self).requests_this_second()
                && final(self).date_line() == old(self).date_line()
                && final(self).events_per_second() == old(self).events_per_second()
                && final(self).events_this_second() == old(self).events_this_second()
                && final(self).synced_second() == old(self).synced_second(),
    {
        self.nano_clock = now_ns;
        self.clock = now_s;
        if self.clock != self.synced {
            self.rps = self.rps_counter;
            self.hz = self.hz_counter;
            self.rps_counter = 0;
            self.hz_counter = 0;
            self.synced = self.clock;
            self.date = crate::nano_clock::nano_clock(now_s);
            return true;
        }
        false
    }

    /// Whether submissions were queued since the last sync; clears the mark.
    pub fn take_sync(&mut self) -> (r: bool)
        requires
            old(self).wf(),
        ensures
            final(self).wf(),
            r == old(self).must_sync(),
            !final(self).must_sync(),
            final(self).same_pool(old(self)),
            final(self).same_outbound(old(self)),
            final(self).same_clock(old(self)),
            final(self).same_config(old(self)),
            final(self).same_conns(old(self)),
    {
        let r = self.sync_now;
        self.sync_now = false;
        r
    }

    /// Whether the loop waits for a completion: while sends are in flight, or
    /// when the completion queue is empty.
    pub fn must_wait(&self, cq_empty: bool) -> (r: bool)
        ensures
            r == (self.sending() || cq_empty),
    {
        self.io_send_busy || cq_empty
    }

    /// Records that the loop waited for a completion: no send is in flight
    /// any more.
    pub fn waited(&mut self)
        requires
            old(self).wf(),
        ensures
            final(self).wf(),
            !final(self).sending(),
            final(self).in_flight() == old(self).in_flight(),
            final(self).must_sync() == old(self).must_sync(),
            final(self).last_flush() == old(self).last_flush(),
            final(self).skipped_flushes() == old(self).skipped_flushes(),
            final(self).same_pool(old(self)),
            final(self).same_clock(old(self)),
            final(self).same_config(old(self)),
            final(self).same_conns(old(self)),
    {
        self.io_send_busy = false;
    }

    /// Counts one loop turn or one completion towards the per-second rate.
    pub fn count_event(&mut self)
        requires
            old(self).wf(),
        ensures
            final(self).wf(),
            final(self).events_this_second() == sat_add(old(self).events_this_second(), 1),
            final(self).same_pool(old(self)),
            final(self).same_outbound(old(self)),
            final(self).same_config(old(self)),
            final(self).same_conns(old(self)),
    {
        self.hz_counter = self.hz_counter.saturating_add(1);
    }

    /// At the end of a loop turn with no request observed in the last second,
    /// hands the released buffers back.
    pub fn idle_release(&mut self, actions: &mut Vec<Action>)
        requires
            old(self).wf(),
        ensures
            final(self).wf(),
            old(self).requests_per_second() != 0 ==> *final(self) == *old(self) && final(actions)@
                == old(actions)@,
            old(self).requests_per_second() == 0 ==> handed_back(
                old(self),
                final(self),
                old(actions)@,
                final(actions)@,
            ),
    {
        if self.rps == 0 {
            self.release_buffers(actions);
        }
    }

    /// Requests per second, loop events per second, live connections and
    /// throttled flushes, for the status line.
    pub fn status(&self) -> (r: (u64, u64, usize, u64))
        ensures
            r.0 == self.requests_per_second(),
            r.1 == self.events_per_second(),
            r.2 == self.connections().dom().len(),
            r.3 == self.skipped_flushes(),
    {
        (self.rps, self.hz, conns_num_elements(&self.conns), self.universal_counter)
    }

    /// The in-flight snapshot at keep-alive slot `slot`.
    pub fn snapshot(&self, slot: usize) -> (r: &[u8])
        requires
            slot < self.in_flight().len(),
        ensures
            r@ == self.in_flight()[slot as int]@,
    {
        self.pointers[slot].as_slice()
    }

    /// The encoded body of the JSON route: at most `MAX_JSON_BODY` bytes.
    pub fn set_json_body(&mut self, body: Vec<u8>)
        requires
            old(self).wf(),
            body@.len() <= crate::response::MAX_JSON_BODY,
        ensures
            final(self).wf(),
            final(self).json() == body@,
            final(self).same_pool(old(self)),
            final(self).same_outbound(old(self)),
            final(self).same_clock(old(self)),
            final(self).same_conns(old(self)),
            final(self).config() == old(self).config(),
    {
        self.json_body = body;
    }

    /// Realtime priority and speculative reads exclude each other.
    pub fn check_modes(&self) -> (r: Result<(), ConfigError>)
        ensures
            r is Err <==> self.config().4 && self.config().5,
    {
        if self.realtime && self.ub_kernel_dma {
            return Err(ConfigError::RealtimeWithSpeculativeReads);
        }
        Ok(())
    }

    /// The address the listener binds.
    pub fn get_addr(&self) -> (r: &String)
        ensures
            *r == self.address(),
    {
        &self.addr
    }

    /// The idle time of the kernel submission poller.
    pub fn get_sqpoll_idle(&self) -> (r: u32)
        ensures
            r == self.config().3,
    {
        self.sqpoll_idle
    }

    /// The number of workers.
    pub fn get_workers(&self) -> (r: u8)
        ensures
            r == self.config().0,
    {
        self.workers
    }

    /// The depth of the ring.
    pub fn get_uring_size(&self) -> (r: u32)
        ensures
            r == self.config().1,
    {
        self.uring_size
    }

    /// Whether the kernel submission poller is used.
    pub fn get_sqpoll_enabled(&self) -> (r: bool)
        ensures
            r == self.config().2,
    {
        self.sqpoll_enabled
    }

    /// Whether workers run with realtime priority.
    pub fn get_realtime(&self) -> (r: bool)
        ensures
            r == self.config().4,
    {
        self.realtime
    }

    /// Whether the speculative-read mode is on.
    pub fn get_ub_kernel_dma(&self) -> (r: bool)
        ensures
            r == self.config().5,
            r == self.speculative(),
    {
        self.ub_kernel_dma
    }
}

impl Server {
    /// Everything but the configuration is as in `o`.
    pub open spec fn same_but_config(&self, o: &Self) -> bool {
        &&& self.wf() == o.wf()
        &&& self.same_pool(o)
        &&& self.same_outbound(o)
        &&& self.same_clock(o)
        &&& self.same_conns(o)
        &&& self.must_sync() == o.must_sync()
        &&& self.json() == o.json()
        &&& self.address() == o.address()
    }

    /// Sets the number of workers.
    pub fn set_workers(&mut self, workers: u8) -> (r: &mut Self)
        ensures
            (*r).config() == (
                workers,
                old(self).config().1,
                old(self).config().2,
                old(self).config().3,
                old(self).config().4,
                old(self).config().5,
            ),
            (*r).same_but_config(old(self)),
            *final(self) == *final(r),
    {
        self.workers = workers;
        self
    }

    /// Turns the kernel submission poller on or off.
    pub fn set_sqpoll_enabled(&mut self, sqpoll_enabled: bool) -> (r: &mut Self)
        ensures
            (*r).config() == (
                old(self).config().0,
                old(self).config().1,
                sqpoll_enabled,
                old(self).config().3,
                old(self).config().4,
                old(self).config().5,
            ),
            (*r).same_but_config(old(self)),
            *final(self) == *final(r),
    {
        self.sqpoll_enabled = sqpoll_enabled;
        self
    }

    /// Sets the depth of the ring.
    pub fn set_uring_size(&mut self, uring_size: u32) -> (r: &mut Self)
        ensures
            (*r).config() == (
                old(self).config().0,
                uring_size,
                old(self).config().2,
                old(self).config().3,
                old(self).config().4,
                old(self).config().5,
            ),
            (*r).same_but_config(old(self)),
            *final(self) == *final(r),
    {
        self.uring_size = uring_size;
        self
    }

    /// Sets the idle time of the kernel submission poller.
    pub fn set_sqpoll_idle(&mut self, sqpoll_idle: u32) -> (r: &mut Self)
        ensures
            (*r).config() == (
                old(self).config().0,
                old(self).config().1,
                old(self).config().2,
                sqpoll_idle,
                old(self).config().4,
                old(self).config().5,
            ),
            (*r).same_but_config(old(self)),
            *final(self) == *final(r),
    {
        self.sqpoll_idle = sqpoll_idle;
        self
    }

    /// Turns realtime priority on or off.
    pub fn set_realtime(&mut self, realtime: bool) -> (r: &mut Self)
        ensures
            (*r).config() == (
                old(self).config().0,
                old(self).config().1,
                old(self).config().2,
                old(self).config().3,
                realtime,
                old(self).config().5,
            ),
            (*r).same_but_config(old(self)),
            *final(self) == *final(r),
    {
        self.realtime = realtime;
        self
    }

    /// Turns the speculative-read mode on or off.
    pub fn set_ub_kernel_dma(&mut self, ub_kernel_dma: bool) -> (r: &mut Self)
        ensures
            (*r).config() == (
                old(self).config().0,
                old(self).config().1,
                old(self).config().2,
                old(self).config().3,
                old(self).config().4,
                ub_kernel_dma,
            ),
            (*r).same_but_config(old(self)),
            *final(self) == *final(r),
    {
        self.ub_kernel_dma = ub_kernel_dma;
        self
    }

    /// A worker ready to run with this configuration, JSON body and address:
    /// no connection, every buffer waiting to be handed to the kernel, and the
    /// same clock.
    pub fn build(&mut self) -> (r: Self)
        requires
            old(self).wf(),
        ensures
            r.wf(),
            r.config() == old(self).config(),
            r.json() == old(self).json(),
            r.address() == old(self).address(),
            r.released() == all_buffer_ids(),
            r.connections().dom() == Set::<int>::empty(),
            r.next_id() == 0,
            r.in_flight().len() == 0,
            *final(self) == *old(self),
    {
        let mut r = Server::new(self.addr.clone(), self.nano_clock, self.clock);
        r.workers = self.workers;
        r.uring_size = self.uring_size;
        r.sqpoll_enabled = self.sqpoll_enabled;
        r.sqpoll_idle = self.sqpoll_idle;
        r.realtime = self.realtime;
        r.ub_kernel_dma = self.ub_kernel_dma;
        r.json_body = self.json_body.clone();
        r.addr = self.addr.clone();
        r
    }
}

impl Server {
    /// How many buffers wait to be handed back to the kernel.
    pub fn pending_releases(&self) -> (r: usize)
        ensures
            r == self.released().len(),
    {
        self.released_buffers.len()
    }

    /// Whether the kernel holds buffer `id`; false outside the pool.
    pub fn kernel_holds(&self, id: u16) -> (r: bool)
        requires
            self.wf(),
        ensures
            r == (id < BUFFERS_COUNT && self.kernel_owned(id as int)),
    {
        id < BUFFERS_COUNT as u16 && self.in_kernel[id as usize]
    }

    /// The descriptor of connection `id`, where it is live.
    pub fn connection_fd(&self, id: usize) -> (r: Option<i32>)
        ensures
            r == if self.connections().contains_key(id as int) {
                Some(self.connections()[id as int].fd)
            } else {
                None::<i32>
            },
    {
        match conns_get(&self.conns, id) {
            Some(c) => Some(c.fd),
            None => None,
        }
    }

    /// How many bytes connection `id` has staged, where it is live.
    pub fn staged_len(&self, id: usize) -> (r: Option<usize>)
        ensures
            r == if self.connections().contains_key(id as int) {
                Some(self.connections()[id as int].out@.1 as usize)
            } else {
                None::<usize>
            },
    {
        match conns_get(&self.conns, id) {
            Some(c) => Some(c.out.len()),
            None => None,
        }
    }

    /// The number of live connections.
    pub fn live_connections(&self) -> (r: usize)
        ensures
            r == self.connections().dom().len(),
    {
        conns_num_elements(&self.conns)
    }

    /// How many snapshots are kept alive for in-flight sends.
    pub fn in_flight_len(&self) -> (r: usize)
        ensures
            r == self.in_flight().len(),
    {
        self.pointers.len()
    }
}

/// Every buffer of the pool is either held by the kernel or waiting in the
/// released queue: the two counts add up to the pool size.
pub proof fn lemma_buffer_accounting(s: &Server)
    requires
        s.wf(),
    ensures
        s.registered().len() + s.released().len() == BUFFERS_COUNT,
        s.registered().disjoint(s.pending()),
        s.released().no_duplicates(),
{
    let all = vstd::set_lib::set_int_range(0, BUFFERS_COUNT as int);
    vstd::set_lib::lemma_int_range(0, BUFFERS_COUNT as int);
    vstd::set_lib::lemma_len_subset(s.registered(), all);
    vstd::set_lib::lemma_len_subset(s.pending(), all);
    assert(s.registered() + s.pending() =~= all);
    vstd::set_lib::lemma_set_disjoint_lens(s.registered(), s.pending());
    let ri = s.released().map_values(|x: u16| x as int);
    assert(ri.no_duplicates()) by {
        reveal_released(s);
    }
    ri.unique_seq_to_set();
    assert(ri.to_set() =~= s.pending()) by {
        reveal_released(s);
        assert forall|x: int| s.pending().contains(x) implies ri.to_set().contains(x) by {
            assert(s.released().contains(x as u16));
            let k = choose|k: int| 0 <= k < s.released().len() && s.released()[k] == x as u16;
            assert(ri[k] == x);
        }
        assert forall|x: int| ri.to_set().contains(x) implies s.pending().contains(x) by {
            let k = choose|k: int| 0 <= k < ri.len() && ri[k] == x;
            assert(s.released().contains(s.released()[k]));
        }
    }
}

proof fn reveal_released(s: &Server)
    requires
        s.wf(),
    ensures
        s.released().no_duplicates(),
        forall|k: int| 0 <= k < s.released().len() ==> (#[trigger] s.released()[k]) < BUFFERS_COUNT,
        forall|id: int|
            0 <= id < BUFFERS_COUNT ==> (#[trigger] s.pending().contains(id) <==> s.released().contains(
                id as u16,
            )),
{
}

} // verus!
