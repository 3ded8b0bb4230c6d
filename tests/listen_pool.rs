use credit_node::channeler::LpConfig;
use credit_node::listen_pool::ListenPool;
use credit_node::PublicKey;

fn pk(b: u8) -> PublicKey {
    PublicKey::new([b; 32])
}

#[test]
fn listen_pool_admits_only_authorized_friends() {
    let mut pool: ListenPool<u32> = ListenPool::new();
    assert!(!pool.accepts(&pk(2)));
    pool.handle_config(LpConfig::SetLocalAddresses(vec![1, 2]));
    assert_eq!(pool.local_addresses, vec![1, 2]);
    pool.handle_config(LpConfig::UpdateFriend((pk(2), vec![1])));
    pool.handle_config(LpConfig::UpdateFriend((pk(3), vec![2])));
    assert!(pool.accepts(&pk(2)));
    assert!(pool.accepts(&pk(3)));
    assert!(!pool.accepts(&pk(4)));
    // an update replaces the relays, not the entry
    pool.handle_config(LpConfig::UpdateFriend((pk(2), vec![2])));
    assert_eq!(pool.friends.len(), 2);
    assert_eq!(pool.friends[0].relay_addresses, vec![2]);
    pool.handle_config(LpConfig::RemoveFriend(pk(2)));
    assert!(!pool.accepts(&pk(2)));
    assert!(pool.accepts(&pk(3)));
    pool.handle_config(LpConfig::RemoveFriend(pk(9)));
    assert_eq!(pool.friends.len(), 1);
}
