use std::time::Duration;
use zk_circuit_fuzzer::dashboard::{AppState, DashboardConfig};
use std::time::Instant;
use zk_circuit_fuzzer::distributed::{
    alive_within, ClusterManager, ClusterNode, DistributedConfig, NodeStatus, NodeType,
};

#[test]
fn test_dashboard_config_default() {
    let config = DashboardConfig::default();
    assert_eq!(config.host, "127.0.0.1");
    assert_eq!(config.port, 8080);
    assert!(config.enable_cors);
}

#[test]
fn test_app_state_creation() {
    let config = DashboardConfig::new();
    let state = AppState::new(config);
    assert_eq!(state.config.port, 8080);
}

#[test]
fn dashboard_builders_set_one_field_each() {
    let a = DashboardConfig::new().with_port(9000).with_host("0.0.0.0".to_string());
    let b = DashboardConfig::new().with_host("0.0.0.0".to_string()).with_port(9000);
    assert_eq!(a.port, 9000);
    assert_eq!(a.host, "0.0.0.0");
    assert_eq!(a.port, b.port);
    assert_eq!(a.host, b.host);
    assert_eq!(a.static_dir, "static");
    assert!(a.enable_cors && b.enable_cors);
}

#[test]
fn test_cluster_manager_creation() {
    let manager = ClusterManager::new("test-cluster".to_string());
    assert!(!manager.is_active());
    assert_eq!(manager.node_count(), 0);
}

#[test]
fn test_node_registration() {
    let mut manager = ClusterManager::new("test-cluster".to_string());
    let addr = format!("{}.{}.{}.{}:{}", 127, 0, 0, 1, 8080);
    let worker = ClusterNode::worker("worker-1".to_string(), addr);

    manager.register_node(worker);
    assert_eq!(manager.node_count(), 1);
    assert_eq!(manager.worker_nodes().len(), 1);
}

#[test]
fn test_cluster_stats() {
    let mut manager = ClusterManager::new("test-cluster".to_string());
    manager.activate();

    let stats = manager.stats();
    assert_eq!(stats.cluster_id, "test-cluster");
    assert!(stats.is_active);
}

#[test]
fn tasks_are_split_evenly_over_workers_that_take_them() {
    let mut manager = ClusterManager::new("c".to_string());
    assert_eq!(manager.distribute_tasks(10), 0);
    manager.activate();
    assert_eq!(manager.distribute_tasks(10), 0);
    manager.register_node(ClusterNode::worker("w1".to_string(), "a:1".to_string()));
    manager.register_node(ClusterNode::worker("w2".to_string(), "a:2".to_string()));
    manager.register_node(ClusterNode::worker("w3".to_string(), "a:3".to_string()));
    manager.register_node(ClusterNode::coordinator("c1".to_string(), "a:0".to_string()));
    // workers start initializing: none takes tasks
    assert_eq!(manager.distribute_tasks(10), 0);
    manager.update_node_status("w1", NodeStatus::Ready);
    manager.update_node_status("w2", NodeStatus::Working);
    assert_eq!(manager.active_worker_count(), 1);
    // 10 tasks over the 2 workers that take them: 5 each
    assert_eq!(manager.distribute_tasks(10), 10);
    // 7 tasks over 2 workers: 3 each, one left over
    assert_eq!(manager.distribute_tasks(7), 6);
    manager.record_task_completion();
    let stats = manager.stats();
    assert_eq!(stats.total_nodes, 4);
    assert_eq!(stats.worker_nodes, 3);
    assert_eq!(stats.active_workers, 2);
    assert_eq!(stats.tasks_distributed, 16);
    assert_eq!(stats.tasks_completed, 1);
}

#[test]
fn registering_an_id_again_replaces_the_node() {
    let mut manager = ClusterManager::new("c".to_string());
    manager.register_node(ClusterNode::worker("n".to_string(), "x:1".to_string()));
    manager.register_node(ClusterNode::coordinator("n".to_string(), "x:2".to_string()));
    assert_eq!(manager.node_count(), 1);
    assert_eq!(manager.worker_nodes().len(), 0);
    assert_eq!(manager.nodes()[0].address, "x:2");
    manager.unregister_node("n");
    assert_eq!(manager.node_count(), 0);
}

#[test]
fn dead_nodes_are_dropped_and_named() {
    let mut manager = ClusterManager::new("c".to_string());
    manager.register_node(ClusterNode::worker("w".to_string(), "x:1".to_string()));
    manager.set_heartbeat_timeout(Duration::from_secs(3600));
    assert!(manager.cleanup_dead_nodes().is_empty());
    manager.set_heartbeat_timeout(Duration::from_nanos(0));
    manager.node_heartbeat("w");
    assert_eq!(manager.cleanup_dead_nodes(), vec!["w".to_string()]);
    assert_eq!(manager.node_count(), 0);
}

#[test]
fn nodes_and_config_defaults() {
    let w = ClusterNode::worker("w".to_string(), "h:1".to_string());
    assert_eq!(w.node_type, NodeType::Worker);
    assert_eq!(w.status, NodeStatus::Initializing);
    assert!(w.is_alive(Duration::from_secs(3600)));
    let c = ClusterNode::coordinator("c".to_string(), "h:2".to_string());
    assert_eq!(c.capabilities, vec!["coordination".to_string()]);
    let d = DistributedConfig::default();
    assert_eq!(d.cluster_id, "default-cluster");
    assert_eq!(d.coordinator_address, "127.0.0.1:9999");
    assert_eq!(d.max_workers, 10);
    assert_eq!(d.batch_size, 100);
    assert_eq!(d.heartbeat_interval, Duration::from_secs(5));
    assert_eq!(d.connection_timeout, Duration::from_secs(10));
}

#[test]
fn heartbeat_at_sets_only_the_time() {
    let mut n = ClusterNode::worker("w".to_string(), "h:1".to_string());
    let at = Instant::now() + Duration::from_secs(60);
    n.heartbeat_at(at);
    assert_eq!(n.last_heartbeat, at);
    assert_eq!(n.id, "w");
    assert_eq!(n.status, NodeStatus::Initializing);

    let mut m = ClusterManager::new("c".to_string());
    m.register_node(ClusterNode::worker("w1".to_string(), "a:1".to_string()));
    m.register_node(ClusterNode::worker("w2".to_string(), "a:2".to_string()));
    let before = m.nodes();
    m.node_heartbeat_at("w2", at);
    let after = m.nodes();
    assert_eq!(after[1].last_heartbeat, at);
    assert_eq!(after[0].last_heartbeat, before[0].last_heartbeat);
    m.node_heartbeat_at("missing", at);
    assert_eq!(m.nodes().len(), 2);
}

#[test]
fn alive_within_compares_strictly() {
    assert!(alive_within(999, &Duration::from_nanos(1000)));
    assert!(!alive_within(1000, &Duration::from_nanos(1000)));
    assert!(!alive_within(0, &Duration::from_secs(0)));
}

#[test]
fn a_batch_goes_whole_to_the_one_available_worker() {
    let mut m = ClusterManager::new("c".to_string());
    m.activate();
    m.register_node(ClusterNode::worker("w1".to_string(), "a:1".to_string()));
    m.update_node_status("w1", NodeStatus::Ready);
    m.register_node(ClusterNode::worker("w2".to_string(), "a:2".to_string()));
    assert_eq!(m.distribute_tasks(10), 10);
    assert_eq!(m.stats().tasks_distributed, 10);
}
