use quic_speed::dns::{collect_addrs, DnsResolver, IpAddress, ResolveError};

#[test]
fn addresses_split_by_family_in_order() {
    let addrs = vec![
        IpAddress::V6(1),
        IpAddress::V4(0x7f000001),
        IpAddress::V6(2),
        IpAddress::V4(0x0a000001),
    ];
    let h = collect_addrs(&addrs).unwrap();
    assert_eq!(h.addrs_v4, vec![0x7f000001, 0x0a000001]);
    assert_eq!(h.addrs_v6, vec![1, 2]);
    assert_eq!(h.addrs_v4.len() + h.addrs_v6.len(), addrs.len());
}

#[test]
fn single_v4_address() {
    let h = collect_addrs(&vec![IpAddress::V4(0x7f000001)]).unwrap();
    assert_eq!(h.addrs_v4, vec![0x7f000001]);
    assert!(h.addrs_v6.is_empty());
}

#[test]
fn no_address_is_an_error() {
    assert_eq!(collect_addrs(&vec![]).unwrap_err(), ResolveError::AddrNotAvailable);
}

#[test]
fn resolver_pool_size() {
    assert_eq!(DnsResolver::new(3).threads(), 3);
    assert_eq!(DnsResolver::with_parallelism(None).threads(), DnsResolver::DEFAULT_THREADS);
    assert_eq!(DnsResolver::with_parallelism(Some(0)).threads(), 1);
    assert_eq!(DnsResolver::with_parallelism(Some(4)).threads(), 4);
    let r = DnsResolver::new(2);
    let shared = r.clone();
    assert_eq!(shared.threads(), 2);
}

#[test]
fn resolver_pool_runs_jobs() {
    let r = DnsResolver::new(8);
    let (tx, rx) = std::sync::mpsc::channel();
    for i in 0..50u32 {
        let tx = tx.clone();
        r.pool().execute(move || {
            let h = collect_addrs(&vec![IpAddress::V4(i)]).unwrap();
            tx.send((i, h.addrs_v4[0])).unwrap();
        });
    }
    drop(tx);
    let mut got: Vec<(u32, u32)> = rx.iter().collect();
    got.sort();
    assert_eq!(got.len(), 50);
    assert!(got.iter().all(|&(i, a)| i == a));
}
