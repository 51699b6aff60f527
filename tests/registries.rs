use corelink::identity::NodeId;
use corelink::network::{NetworkState, PeerInfo};
use corelink::storage::Storage;

fn info(n: u8, address: &str) -> PeerInfo {
    PeerInfo {
        node_id: NodeId([n; 32]),
        address: address.to_string(),
        last_seen: n as u64,
        capabilities: vec!["storage".to_string()],
    }
}

#[test]
fn storage_insert_get_remove() {
    let mut s = Storage::new();
    assert!(s.get("a").is_none());
    s.insert("a".to_string(), vec![1, 2]);
    s.insert("b".to_string(), vec![3]);
    s.insert("a".to_string(), vec![9]);
    assert_eq!(s.get("a"), Some(&vec![9]));
    assert_eq!(s.get("b"), Some(&vec![3]));
    assert_eq!(s.remove("a"), Some(vec![9]));
    assert!(s.get("a").is_none());
    assert_eq!(s.remove("a"), None);
}

#[test]
fn network_state_records_peers() {
    let mut net = NetworkState::new();
    net.add_peer(info(1, "/ip4/10.0.0.1/tcp/4001"));
    net.add_peer(info(2, "/ip4/10.0.0.2/tcp/4001"));
    net.add_peer(info(1, "/ip4/10.0.0.9/tcp/4001"));
    assert_eq!(net.get_all_peers().len(), 2);
    assert_eq!(net.get_peer(&NodeId([1; 32])).unwrap().address, "/ip4/10.0.0.9/tcp/4001");
    net.remove_peer(&NodeId([1; 32]));
    assert!(net.get_peer(&NodeId([1; 32])).is_none());
    let all = net.get_all_peers();
    assert_eq!(all.len(), 1);
    assert_eq!(all[0].node_id, NodeId([2; 32]));
    assert_eq!(all[0].capabilities, vec!["storage".to_string()]);
}
