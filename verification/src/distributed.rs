//! Coordination of a fuzzing cluster: its nodes, their heartbeats, and the
//! distribution of tasks among the workers.
use crate::clock::{duration_from_secs, duration_nanos, elapsed_duration, elapsed_nanos, instant_now, nanos_in};
use crate::strmap::{has_key, insert_entry, key_index, remove_entry, StrMap};
use crate::text::owned;
use std::time::{Duration, Instant};
use vstd::prelude::*;

verus! {

/// Kinds of cluster nodes.
#[derive(Debug, Clone, Copy, PartialEq, Eq, Hash, Structural)]
pub enum NodeType {
    Coordinator,
    Worker,
    Aggregator,
}

/// States of a cluster node.
#[derive(Debug, Clone, Copy, PartialEq, Eq, Structural)]
pub enum NodeStatus {
    Initializing,
    Ready,
    Working,
    Paused,
    Stopped,
    Unreachable,
}

/// A node of the cluster.
#[derive(Debug, Clone)]
pub struct ClusterNode {
    pub id: String,
    pub node_type: NodeType,
    pub status: NodeStatus,
    pub address: String,
    pub tasks_completed: u64,
    pub tasks_in_progress: u64,
    pub last_heartbeat: Instant,
    pub capabilities: Vec<String>,
}

impl ClusterNode {
    /// A worker node, initializing, with no tasks and no capabilities.
    pub fn worker(id: String, address: String) -> (n: Self)
        ensures
            n.id == id,
            n.address == address,
            n.node_type == NodeType::Worker,
            n.status == NodeStatus::Initializing,
            n.tasks_completed == 0,
            n.tasks_in_progress == 0,
            n.capabilities@.len() == 0,
    {
        ClusterNode {
            id,
            node_type: NodeType::Worker,
            status: NodeStatus::Initializing,
            address,
            tasks_completed: 0,
            tasks_in_progress: 0,
            last_heartbeat: instant_now(),
            capabilities: Vec::new(),
        }
    }

    /// A coordinator node, ready, with the capability `coordination`.
    pub fn coordinator(id: String, address: String) -> (n: Self)
        ensures
            n.id == id,
            n.address == address,
            n.node_type == NodeType::Coordinator,
            n.status == NodeStatus::Ready,
            n.tasks_completed == 0,
            n.tasks_in_progress == 0,
            n.capabilities@.len() == 1,
            n.capabilities@[0]@ == "coordination"@,
    {
        ClusterNode {
            id,
            node_type: NodeType::Coordinator,
            status: NodeStatus::Ready,
            address,
            tasks_completed: 0,
            tasks_in_progress: 0,
            last_heartbeat: instant_now(),
            capabilities: vec![owned("coordination")],
        }
    }

    /// Records a heartbeat now; nothing but the heartbeat time changes. The
    /// new heartbeat time is the clock's reading, which no contract can
    /// name; `heartbeat_at` states what is done with it.
    pub fn heartbeat(&mut self)
        ensures
            final(self).id == old(self).id,
            final(self).node_type == old(self).node_type,
            final(self).status == old(self).status,
            final(self).address == old(self).address,
            final(self).tasks_completed == old(self).tasks_completed,
            final(self).tasks_in_progress == old(self).tasks_in_progress,
            final(self).capabilities == old(self).capabilities,
    {
        let now = instant_now();
        self.heartbeat_at(now);
    }

    /// Records a heartbeat at the instant `at`: the heartbeat time becomes
    /// `at` and nothing else changes.
    pub fn heartbeat_at(&mut self, at: Instant)
        ensures
            *final(self) == (ClusterNode { last_heartbeat: at, ..*old(self) }),
    {
        self.last_heartbeat = at;
    }

    /// Whether the last heartbeat came less than `timeout` ago, both read
    /// in nanoseconds; how long ago it came is the clock's reading, so only
    /// the comparison is stated (and with a zero timeout no node is alive).
    pub fn is_alive(&self, timeout: Duration) -> (b: bool)
        ensures
            nanos_in(timeout) == 0 ==> !b,
    {
        let since = elapsed_nanos(&self.last_heartbeat);
        alive_within(since, &timeout)
    }
}

/// Whether a heartbeat that came `since_nanos` nanoseconds ago is within
/// `timeout`: strictly less time has passed than the timeout.
pub fn alive_within(since_nanos: u128, timeout: &Duration) -> (b: bool)
    ensures
        b == (since_nanos < nanos_in(*timeout)),
{
    let limit = duration_nanos(timeout);
    since_nanos < limit
}

/// Counts of the cluster.
#[derive(Debug, Clone)]
pub struct ClusterStats {
    pub cluster_id: String,
    pub total_nodes: usize,
    pub worker_nodes: usize,
    pub active_workers: usize,
    pub tasks_distributed: u64,
    pub tasks_completed: u64,
    pub uptime: Duration,
    pub is_active: bool,
}

/// Messages between nodes.
#[derive(Debug, Clone)]
pub enum ClusterMessage {
    RegisterWorker { id: String, capabilities: Vec<String> },
    AssignWork { worker_id: String, work_items: Vec<WorkItem> },
    WorkComplete { worker_id: String, results: Vec<WorkResult> },
    Heartbeat { node_id: String },
    HeartbeatAck { node_id: String },
    Shutdown,
    Pause,
    Resume,
    StatusRequest,
    StatusResponse(ClusterStats),
}

/// A unit of work.
#[derive(Debug, Clone)]
pub struct WorkItem {
    pub id: u64,
    pub circuit_type: String,
    pub seed: u64,
    pub max_iterations: u64,
    pub timeout_ms: u64,
}

/// The result of a unit of work.
#[derive(Debug, Clone)]
pub struct WorkResult {
    pub work_item_id: u64,
    pub success: bool,
    pub test_cases: u64,
    pub unique_paths: u64,
    pub crashes: u64,
    pub execution_time_ms: u64,
    pub error: Option<String>,
}

/// Configuration of distributed fuzzing.
#[derive(Debug, Clone)]
pub struct DistributedConfig {
    pub cluster_id: String,
    pub coordinator_address: String,
    pub node_type: NodeType,
    pub max_workers: usize,
    pub batch_size: u64,
    pub heartbeat_interval: Duration,
    pub connection_timeout: Duration,
}

impl Default for DistributedConfig {
    fn default() -> (c: Self)
        ensures
            c.cluster_id@ == "default-cluster"@,
            c.coordinator_address@ == "127.0.0.1:9999"@,
            c.node_type == NodeType::Coordinator,
            c.max_workers == 10,
            c.batch_size == 100,
            nanos_in(c.heartbeat_interval) == 5_000_000_000,
            nanos_in(c.connection_timeout) == 10_000_000_000,
    {
        DistributedConfig {
            cluster_id: owned("default-cluster"),
            coordinator_address: owned("127.0.0.1:9999"),
            node_type: NodeType::Coordinator,
            max_workers: 10,
            batch_size: 100,
            heartbeat_interval: duration_from_secs(5),
            connection_timeout: duration_from_secs(10),
        }
    }
}

/// Whether a node is a worker.
pub open spec fn is_worker(n: ClusterNode) -> bool {
    n.node_type == NodeType::Worker
}

/// Whether a node is a worker that is working.
pub open spec fn is_working_worker(n: ClusterNode) -> bool {
    n.node_type == NodeType::Worker && n.status == NodeStatus::Working
}

/// Whether a node is a worker that is ready or working.
pub open spec fn takes_tasks(n: ClusterNode) -> bool {
    n.node_type == NodeType::Worker && (n.status == NodeStatus::Ready || n.status
        == NodeStatus::Working)
}

/// How many nodes of a table are workers.
pub open spec fn count_workers(s: Seq<(Seq<char>, ClusterNode)>) -> nat
    decreases s.len(),
{
    if s.len() == 0 {
        0
    } else {
        count_workers(s.drop_last()) + if is_worker(s.last().1) {
            1nat
        } else {
            0nat
        }
    }
}

/// How many nodes of a table are working workers.
pub open spec fn count_working(s: Seq<(Seq<char>, ClusterNode)>) -> nat
    decreases s.len(),
{
    if s.len() == 0 {
        0
    } else {
        count_working(s.drop_last()) + if is_working_worker(s.last().1) {
            1nat
        } else {
            0nat
        }
    }
}

/// How many nodes of a table are workers taking tasks.
pub open spec fn count_taking(s: Seq<(Seq<char>, ClusterNode)>) -> nat
    decreases s.len(),
{
    if s.len() == 0 {
        0
    } else {
        count_taking(s.drop_last()) + if takes_tasks(s.last().1) {
            1nat
        } else {
            0nat
        }
    }
}

/// The worker counts are the numbers of entries that are workers, that are
/// ready or working workers, and that are working workers; every worker
/// that takes tasks is a worker.
pub proof fn lemma_worker_counts(s: Seq<(Seq<char>, ClusterNode)>)
    ensures
        count_workers(s) == s.filter(|e: (Seq<char>, ClusterNode)| e.1.node_type == NodeType::Worker).len(),
        count_taking(s) == s.filter(
            |e: (Seq<char>, ClusterNode)|
                e.1.node_type == NodeType::Worker && (e.1.status == NodeStatus::Ready || e.1.status
                    == NodeStatus::Working),
        ).len(),
        count_taking(s) <= count_workers(s),
    decreases s.len(),
{
    reveal_with_fuel(Seq::filter, 1);
    if s.len() > 0 {
        lemma_worker_counts(s.drop_last());
    }
}

/// The node table with the node under `id` changed by `f`, if there is one.
pub open spec fn with_status(s: Seq<(Seq<char>, ClusterNode)>, id: Seq<char>, st: NodeStatus) -> Seq<
    (Seq<char>, ClusterNode),
> {
    if has_key(s, id) {
        s.update(key_index(s, id), (id, ClusterNode { status: st, ..s[key_index(s, id)].1 }))
    } else {
        s
    }
}

/// The tasks a distribution hands out: the batch split into equal shares,
/// one for each worker that is ready or working. The remainder of that split,
/// fewer tasks than there are such workers, is not handed out. None are
/// handed out when the cluster is inactive or no worker takes tasks.
pub open spec fn distributed_tasks(active: bool, s: Seq<(Seq<char>, ClusterNode)>, task_count: u64) -> int {
    if !active || count_taking(s) == 0 {
        0
    } else {
        (task_count as int / (count_taking(s) as int)) * count_taking(s)
    }
}

/// The entries kept where `keep` holds, in order.
pub open spec fn kept(s: Seq<(Seq<char>, ClusterNode)>, keep: Seq<bool>) -> Seq<(Seq<char>, ClusterNode)>
    decreases s.len(),
{
    if s.len() == 0 || keep.len() != s.len() {
        seq![]
    } else {
        let r = kept(s.drop_last(), keep.drop_last());
        if keep.last() {
            r.push(s.last())
        } else {
            r
        }
    }
}

/// The keys of the entries dropped where `keep` fails, in order.
pub open spec fn dropped(s: Seq<(Seq<char>, ClusterNode)>, keep: Seq<bool>) -> Seq<Seq<char>>
    decreases s.len(),
{
    if s.len() == 0 || keep.len() != s.len() {
        seq![]
    } else {
        let r = dropped(s.drop_last(), keep.drop_last());
        if keep.last() {
            r
        } else {
            r.push(s.last().0)
        }
    }
}

/// The counter after adding `n`, wrapping around as an atomic counter does.
pub open spec fn wrapping_add(a: u64, n: u64) -> u64 {
    if a + n <= u64::MAX {
        (a + n) as u64
    } else {
        (a + n - u64::MAX - 1) as u64
    }
}

fn wrapping_add_exec(a: u64, n: u64) -> (r: u64)
    ensures
        r == wrapping_add(a, n),
{
    if a <= u64::MAX - n {
        a + n
    } else {
        n - (u64::MAX - a) - 1
    }
}

/// The node table after a heartbeat at `at` of the node keyed `key`: that
/// node's heartbeat time becomes `at`; without such a node, nothing changes.
pub open spec fn heartbeat_in(t: Seq<(Seq<char>, ClusterNode)>, key: Seq<char>, at: Instant) -> Seq<
    (Seq<char>, ClusterNode),
> {
    if has_key(t, key) {
        let k = key_index(t, key);
        t.update(k, (t[k].0, ClusterNode { last_heartbeat: at, ..t[k].1 }))
    } else {
        t
    }
}

/// Manages the nodes of a fuzzing cluster.
#[derive(Debug)]
pub struct ClusterManager {
    cluster_id: String,
    nodes: StrMap<ClusterNode>,
    active: bool,
    total_tasks_distributed: u64,
    total_tasks_completed: u64,
    start_time: Instant,
    heartbeat_timeout: Duration,
}

impl ClusterManager {
    /// The cluster's identifier.
    pub closed spec fn id(self) -> Seq<char> {
        self.cluster_id@
    }

    /// The nodes, keyed by identifier, in registration order.
    pub closed spec fn node_table(self) -> Seq<(Seq<char>, ClusterNode)> {
        self.nodes@
    }

    /// Whether the cluster is active.
    pub closed spec fn active_flag(self) -> bool {
        self.active
    }

    /// The tasks distributed so far.
    pub closed spec fn distributed_total(self) -> u64 {
        self.total_tasks_distributed
    }

    /// The tasks completed so far.
    pub closed spec fn completed_total(self) -> u64 {
        self.total_tasks_completed
    }

    /// The heartbeat timeout.
    pub closed spec fn timeout(self) -> Duration {
        self.heartbeat_timeout
    }

    /// An inactive cluster with no nodes, no tasks, and a heartbeat timeout
    /// of 30 seconds.
    pub fn new(cluster_id: String) -> (m: Self)
        ensures
            m.id() == cluster_id@,
            m.node_table().len() == 0,
            !m.active_flag(),
            m.distributed_total() == 0,
            m.completed_total() == 0,
    {
        ClusterManager {
            cluster_id,
            nodes: StrMap::new(),
            active: false,
            total_tasks_distributed: 0,
            total_tasks_completed: 0,
            start_time: instant_now(),
            heartbeat_timeout: duration_from_secs(30),
        }
    }

    /// Activates the cluster.
    pub fn activate(&mut self)
        ensures
            final(self).active_flag(),
            final(self).node_table() == old(self).node_table(),
            final(self).id() == old(self).id(),
            final(self).distributed_total() == old(self).distributed_total(),
            final(self).completed_total() == old(self).completed_total(),
    {
        self.active = true;
    }

    /// Deactivates the cluster.
    pub fn deactivate(&mut self)
        ensures
            !final(self).active_flag(),
            final(self).node_table() == old(self).node_table(),
            final(self).id() == old(self).id(),
            final(self).distributed_total() == old(self).distributed_total(),
            final(self).completed_total() == old(self).completed_total(),
    {
        self.active = false;
    }

    /// Whether the cluster is active.
    pub fn is_active(&self) -> (b: bool)
        ensures
            b == self.active_flag(),
    {
        self.active
    }

    /// Registers a node under its identifier, replacing one registered
    /// under the same identifier in its place.
    pub fn register_node(&mut self, node: ClusterNode)
        ensures
            final(self).node_table() == insert_entry(old(self).node_table(), node.id@, node),
            final(self).active_flag() == old(self).active_flag(),
            final(self).id() == old(self).id(),
            final(self).distributed_total() == old(self).distributed_total(),
            final(self).completed_total() == old(self).completed_total(),
    {
        let id = node.id.clone();
        self.nodes.insert(id, node);
    }

    /// Removes the node with an identifier, if there is one.
    pub fn unregister_node(&mut self, node_id: &str)
        ensures
            final(self).node_table() == remove_entry(old(self).node_table(), node_id@),
            final(self).active_flag() == old(self).active_flag(),
            final(self).id() == old(self).id(),
            final(self).distributed_total() == old(self).distributed_total(),
            final(self).completed_total() == old(self).completed_total(),
    {
        self.nodes.remove(node_id);
    }

    /// Sets the status of the node with an identifier, if there is one.
    pub fn update_node_status(&mut self, node_id: &str, status: NodeStatus)
        ensures
            final(self).node_table() == with_status(old(self).node_table(), node_id@, status),
            final(self).active_flag() == old(self).active_flag(),
            final(self).id() == old(self).id(),
            final(self).distributed_total() == old(self).distributed_total(),
            final(self).completed_total() == old(self).completed_total(),
    {
        match self.nodes.find(node_id) {
            Some(i) => {
                let stand_in = ClusterNode::worker(String::new(), String::new());
                let mut node = self.nodes.replace_value_at(i, stand_in);
                node.status = status;
                self.nodes.replace_value_at(i, node);
            },
            None => {},
        }
    }

    /// Records a heartbeat of the node with an identifier, if there is one;
    /// only that node's heartbeat time changes.
    pub fn node_heartbeat(&mut self, node_id: &str)
        ensures
            final(self).node_table().len() == old(self).node_table().len(),
            forall|i: int|
                0 <= i < old(self).node_table().len() ==> (#[trigger] final(self).node_table()[i]).0
                    == old(self).node_table()[i].0,
            forall|i: int|
                0 <= i < old(self).node_table().len() && (!has_key(old(self).node_table(), node_id@)
                    || i != key_index(old(self).node_table(), node_id@))
                    ==> #[trigger] final(self).node_table()[i] == old(self).node_table()[i],
            has_key(old(self).node_table(), node_id@) ==> {
                let k = key_index(old(self).node_table(), node_id@);
                let (a, b) = (old(self).node_table()[k].1, final(self).node_table()[k].1);
                &&& b.id == a.id && b.node_type == a.node_type && b.status == a.status
                &&& b.address == a.address && b.tasks_completed == a.tasks_completed
                &&& b.tasks_in_progress == a.tasks_in_progress && b.capabilities == a.capabilities
            },
            final(self).active_flag() == old(self).active_flag(),
            final(self).id() == old(self).id(),
            final(self).distributed_total() == old(self).distributed_total(),
            final(self).completed_total() == old(self).completed_total(),
    {
        let now = instant_now();
        self.node_heartbeat_at(node_id, now);
    }

    /// Records a heartbeat at the instant `at` of the node with an
    /// identifier, if there is one: that node's heartbeat time becomes `at`,
    /// and nothing else changes.
    pub fn node_heartbeat_at(&mut self, node_id: &str, at: Instant)
        ensures
            final(self).node_table() == heartbeat_in(old(self).node_table(), node_id@, at),
            final(self).active_flag() == old(self).active_flag(),
            final(self).id() == old(self).id(),
            final(self).distributed_total() == old(self).distributed_total(),
            final(self).completed_total() == old(self).completed_total(),
    {
        match self.nodes.find(node_id) {
            Some(i) => {
                let stand_in = ClusterNode::worker(String::new(), String::new());
                let mut node = self.nodes.replace_value_at(i, stand_in);
                node.heartbeat_at(at);
                self.nodes.replace_value_at(i, node);
            },
            None => {},
        }
    }

    /// Copies of all nodes, in registration order.
    pub fn nodes(&self) -> (r: Vec<ClusterNode>)
        ensures
            r@.len() == self.node_table().len(),
            forall|i: int|
                0 <= i < r@.len() ==> cloned(self.node_table()[i].1, #[trigger] r@[i]),
    {
        let n = self.nodes.len();
        let mut r: Vec<ClusterNode> = Vec::new();
        let mut i: usize = 0;
        while i < n
            invariant
                i <= n,
                n == self.node_table().len(),
                r@.len() == i,
                forall|j: int| 0 <= j < i ==> cloned(self.node_table()[j].1, #[trigger] r@[j]),
            decreases n - i,
        {
            r.push(self.nodes.value_at(i).clone());
            i += 1;
        }
        r
    }

    /// Copies of the worker nodes, in registration order.
    pub fn worker_nodes(&self) -> (r: Vec<ClusterNode>)
        ensures
            r@.len() == count_workers(self.node_table()),
    {
        let ghost t = self.node_table();
        let n = self.nodes.len();
        let mut r: Vec<ClusterNode> = Vec::new();
        let mut i: usize = 0;
        assert(t.take(0) =~= Seq::<(Seq<char>, ClusterNode)>::empty());
        while i < n
            invariant
                i <= n,
                t == self.node_table(),
                n == t.len(),
                r@.len() == count_workers(t.take(i as int)),
            decreases n - i,
        {
            proof {
                assert(t.take(i + 1).drop_last() =~= t.take(i as int));
                assert(t.take(i + 1).last() == t[i as int]);
            }
            let node = self.nodes.value_at(i);
            if node.node_type == NodeType::Worker {
                r.push(node.clone());
            }
            i += 1;
        }
        assert(t.take(i as int) =~= t);
        r
    }

    /// The number of workers that are working.
    pub fn active_worker_count(&self) -> (c: usize)
        ensures
            c == count_working(self.node_table()),
    {
        let ghost t = self.node_table();
        let n = self.nodes.len();
        let mut c: usize = 0;
        let mut i: usize = 0;
        assert(t.take(0) =~= Seq::<(Seq<char>, ClusterNode)>::empty());
        while i < n
            invariant
                i <= n,
                t == self.node_table(),
                n == t.len(),
                c == count_working(t.take(i as int)),
                c <= i,
            decreases n - i,
        {
            proof {
                assert(t.take(i + 1).drop_last() =~= t.take(i as int));
                assert(t.take(i + 1).last() == t[i as int]);
            }
            let node = self.nodes.value_at(i);
            if node.node_type == NodeType::Worker && node.status == NodeStatus::Working {
                c = c + 1;
            }
            i += 1;
        }
        assert(t.take(i as int) =~= t);
        c
    }

    /// The number of nodes.
    pub fn node_count(&self) -> (c: usize)
        ensures
            c == self.node_table().len(),
    {
        self.nodes.len()
    }

    /// The numbers of workers and of workers taking tasks.
    fn worker_counts(&self) -> (r: (usize, usize))
        ensures
            r.0 == count_workers(self.node_table()),
            r.1 == count_taking(self.node_table()),
            r.1 <= r.0,
    {
        let ghost t = self.node_table();
        let n = self.nodes.len();
        let mut w: usize = 0;
        let mut a: usize = 0;
        let mut i: usize = 0;
        assert(t.take(0) =~= Seq::<(Seq<char>, ClusterNode)>::empty());
        while i < n
            invariant
                i <= n,
                t == self.node_table(),
                n == t.len(),
                w == count_workers(t.take(i as int)),
                a == count_taking(t.take(i as int)),
                a <= w,
                w <= i,
            decreases n - i,
        {
            proof {
                assert(t.take(i + 1).drop_last() =~= t.take(i as int));
                assert(t.take(i + 1).last() == t[i as int]);
            }
            let node = self.nodes.value_at(i);
            if node.node_type == NodeType::Worker {
                w = w + 1;
                if node.status == NodeStatus::Ready || node.status == NodeStatus::Working {
                    a = a + 1;
                }
            }
            i += 1;
        }
        assert(t.take(i as int) =~= t);
        (w, a)
    }

    /// Distributes a batch of tasks (see `distributed_tasks`), adds them to
    /// the distributed total (wrapping around as an atomic counter does) and
    /// returns their number.
    pub fn distribute_tasks(&mut self, task_count: u64) -> (d: u64)
        ensures
            d == distributed_tasks(old(self).active_flag(), old(self).node_table(), task_count),
            d <= task_count,
            old(self).active_flag() && count_taking(old(self).node_table()) > 0 ==> task_count - d
                < count_taking(old(self).node_table()),
            final(self).distributed_total() == wrapping_add(old(self).distributed_total(), d),
            final(self).node_table() == old(self).node_table(),
            final(self).active_flag() == old(self).active_flag(),
            final(self).id() == old(self).id(),
            final(self).completed_total() == old(self).completed_total(),
    {
        if !self.active {
            return 0;
        }
        let (_workers, taking) = self.worker_counts();
        if taking == 0 {
            return 0;
        }
        let per: u64 = task_count / (taking as u64);
        proof {
            assert(per * taking <= task_count) by (nonlinear_arith)
                requires
                    per == task_count / (taking as u64),
                    taking > 0,
            ;
            assert(task_count - per * taking < taking) by (nonlinear_arith)
                requires
                    per == task_count / (taking as u64),
                    taking > 0,
            ;
        }
        let distributed: u64 = per * (taking as u64);
        self.total_tasks_distributed = wrapping_add_exec(self.total_tasks_distributed, distributed);
        distributed
    }

    /// Counts one completed task (wrapping around as an atomic counter does).
    pub fn record_task_completion(&mut self)
        ensures
            final(self).completed_total() == wrapping_add(old(self).completed_total(), 1),
            final(self).distributed_total() == old(self).distributed_total(),
            final(self).node_table() == old(self).node_table(),
            final(self).active_flag() == old(self).active_flag(),
            final(self).id() == old(self).id(),
    {
        self.total_tasks_completed = wrapping_add_exec(self.total_tasks_completed, 1);
    }

    /// The cluster's counts, with the time since it was created.
    pub fn stats(&self) -> (r: ClusterStats)
        ensures
            r.cluster_id@ == self.id(),
            r.total_nodes == self.node_table().len(),
            r.worker_nodes == count_workers(self.node_table()),
            r.active_workers == count_taking(self.node_table()),
            r.tasks_distributed == self.distributed_total(),
            r.tasks_completed == self.completed_total(),
            r.is_active == self.active_flag(),
    {
        let (w, a) = self.worker_counts();
        ClusterStats {
            cluster_id: self.cluster_id.clone(),
            total_nodes: self.nodes.len(),
            worker_nodes: w,
            active_workers: a,
            tasks_distributed: self.total_tasks_distributed,
            tasks_completed: self.total_tasks_completed,
            uptime: elapsed_duration(&self.start_time),
            is_active: self.active,
        }
    }

    /// Removes the nodes whose last heartbeat is not within the timeout,
    /// stopped nodes excepted, and returns their identifiers in order. Which
    /// nodes are alive depends on the clock; stopped nodes always stay.
    pub fn cleanup_dead_nodes(&mut self) -> (dead: Vec<String>)
        ensures
            exists|keep: Seq<bool>|
                {
                    &&& keep.len() == old(self).node_table().len()
                    &&& forall|i: int|
                        0 <= i < keep.len() && old(self).node_table()[i].1.status
                            == NodeStatus::Stopped ==> #[trigger] keep[i]
                    &&& final(self).node_table() == kept(old(self).node_table(), keep)
                    &&& dead@.map_values(|s: String| s@) == dropped(old(self).node_table(), keep)
                },
            final(self).active_flag() == old(self).active_flag(),
            final(self).id() == old(self).id(),
            final(self).distributed_total() == old(self).distributed_total(),
            final(self).completed_total() == old(self).completed_total(),
    {
        let ghost t = self.node_table();
        let n = self.nodes.len();
        let mut keep_flags: Vec<bool> = Vec::new();
        let mut i: usize = 0;
        while i < n
            invariant
                i <= n,
                t == self.node_table(),
                n == t.len(),
                keep_flags@.len() == i,
                forall|j: int|
                    0 <= j < i && t[j].1.status == NodeStatus::Stopped ==> #[trigger] keep_flags@[j],
            decreases n - i,
        {
            let node = self.nodes.value_at(i);
            let alive = node.is_alive(self.heartbeat_timeout);
            keep_flags.push(alive || node.status == NodeStatus::Stopped);
            i += 1;
        }
        let ghost keep = keep_flags@;
        let mut kept_nodes: StrMap<ClusterNode> = StrMap::new();
        let mut dead: Vec<String> = Vec::new();
        let mut old_nodes: StrMap<ClusterNode> = StrMap::new();
        std::mem::swap(&mut old_nodes, &mut self.nodes);
        let mut j: usize = 0;
        proof {
            assert(t.take(0) =~= Seq::<(Seq<char>, ClusterNode)>::empty());
            assert(keep.take(0) =~= Seq::<bool>::empty());
            assert(kept_nodes@ =~= kept(t.take(0), keep.take(0)));
            assert(dead@.map_values(|s: String| s@) =~= dropped(t.take(0), keep.take(0)));
        }
        while j < n
            invariant
                j <= n,
                n == t.len(),
                keep.len() == n,
                keep == keep_flags@,
                old_nodes@.len() == n,
                forall|k: int| 0 <= k < n ==> (#[trigger] old_nodes@[k]).0 == t[k].0,
                forall|k: int| j <= k < n ==> #[trigger] old_nodes@[k] == t[k],
                crate::strmap::distinct_keys(t),
                crate::strmap::distinct_keys(kept_nodes@),
                kept_nodes@ == kept(t.take(j as int), keep.take(j as int)),
                dead@.map_values(|s: String| s@) == dropped(t.take(j as int), keep.take(j as int)),
                forall|k: int| 0 <= k < kept_nodes@.len() ==> exists|m: int|
                    0 <= m < j && #[trigger] kept_nodes@[k].0 == t[m].0,
            decreases n - j,
        {
            proof {
                assert(t.take(j + 1).drop_last() =~= t.take(j as int));
                assert(keep.take(j + 1).drop_last() =~= keep.take(j as int));
                assert(t.take(j + 1).last() == t[j as int]);
                assert(keep.take(j + 1).last() == keep[j as int]);
            }
            let id = old_nodes.key_at(j).clone();
            if keep_flags[j] {
                let stand_in = ClusterNode::worker(String::new(), String::new());
                let node = old_nodes.replace_value_at(j, stand_in);
                proof {
                    assert(!has_key(kept_nodes@, t[j as int].0)) by {
                        if has_key(kept_nodes@, t[j as int].0) {
                            let k = key_index(kept_nodes@, t[j as int].0);
                            let m = choose|m: int| 0 <= m < j && kept_nodes@[k].0 == t[m].0;
                            assert(t[m].0 == t[j as int].0);
                        }
                    }
                }
                let ghost before = kept_nodes@;
                kept_nodes.insert(id, node);
                proof {
                    assert(kept_nodes@ == before.push((t[j as int].0, t[j as int].1)));
                    assert forall|k: int| 0 <= k < kept_nodes@.len() implies exists|m: int|
                        0 <= m < j + 1 && #[trigger] kept_nodes@[k].0 == t[m].0 by {
                        if k < before.len() {
                            let m = choose|m: int| 0 <= m < j && before[k].0 == t[m].0;
                            assert(kept_nodes@[k].0 == t[m].0);
                        } else {
                            assert(kept_nodes@[k].0 == t[j as int].0);
                        }
                    }
                }
            } else {
                let ghost before = dead@;
                dead.push(id);
                assert(dead@.map_values(|s: String| s@) =~= before.map_values(|s: String| s@).push(
                    t[j as int].0,
                ));
            }
            j += 1;
        }
        proof {
            assert(t.take(j as int) =~= t);
            assert(keep.take(j as int) =~= keep);
        }
        self.nodes = kept_nodes;
        dead
    }

    /// Sets the heartbeat timeout.
    pub fn set_heartbeat_timeout(&mut self, timeout: Duration)
        ensures
            final(self).timeout() == timeout,
            final(self).node_table() == old(self).node_table(),
            final(self).active_flag() == old(self).active_flag(),
            final(self).id() == old(self).id(),
    {
        self.heartbeat_timeout = timeout;
    }
}

} // verus!
