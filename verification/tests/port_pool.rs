use obelisk::port_pool::PortPool;
use obelisk::settings::RtpPortRange;

#[test]
fn port_pairs_cover_the_range() {
    let pool = PortPool::init(&RtpPortRange { start: 40000, end: 49999 });
    assert_eq!(pool.port_pairs, 5000);
    let odd = PortPool::init(&RtpPortRange { start: 40000, end: 40005 });
    assert_eq!(odd.port_pairs, 3);
    let empty = PortPool::init(&RtpPortRange { start: 40000, end: 40000 });
    assert_eq!(empty.port_pairs, 0);
    assert_eq!(empty.draw_pair(&vec![]), None);
}

#[test]
fn pair_ports_are_even_and_odd() {
    let pool = PortPool::init(&RtpPortRange { start: 40000, end: 49999 });
    assert_eq!(pool.pair_ports(0), (40000, 40001));
    assert_eq!(pool.pair_ports(4999), (49998, 49999));
    let top = PortPool::init(&RtpPortRange { start: 65530, end: 65535 });
    assert_eq!(top.pair_ports(2), (65534, 65535));
}

#[test]
fn drawn_pairs_are_free() {
    let mut pool = PortPool::init(&RtpPortRange { start: 40000, end: 40008 });
    assert_eq!(pool.port_pairs, 4);
    pool.mark_used(0);
    pool.mark_used(2);
    for _ in 0..50 {
        let p = pool.draw_pair(&vec![1]).unwrap();
        assert_eq!(p, 3);
    }
    assert_eq!(pool.draw_pair(&vec![1, 3]), None);
}

#[test]
fn clearing_either_port_frees_the_pair() {
    let mut pool = PortPool::init(&RtpPortRange { start: 40000, end: 40010 });
    pool.mark_used(3);
    let (rtp, rtcp) = pool.pair_ports(3);
    assert_eq!((rtp, rtcp), (40006, 40007));
    assert!(pool.clear_port(rtcp));
    assert!(pool.used_pairs.is_empty());
    assert!(!pool.clear_port(rtp));
    pool.mark_used(3);
    assert!(pool.clear_port(rtp));
    assert!(pool.used_pairs.is_empty());
}
