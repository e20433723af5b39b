use ampfuzz::byte_count::{AmpByteCount, UdpByteCount};
use std::cmp::Ordering;

fn series(sizes: &[usize]) -> UdpByteCount {
    let mut c = UdpByteCount::default();
    for s in sizes {
        c.add_assign_l7(*s);
    }
    c
}

fn sample(bytes_in: &[usize], bytes_out: &[usize]) -> AmpByteCount {
    AmpByteCount { bytes_in: series(bytes_in), bytes_out: series(bytes_out) }
}

fn factor(a: &AmpByteCount) -> f64 {
    match a.factor_ratio() {
        Some((out, inb)) => out as f64 / inb as f64,
        None => 0.0,
    }
}

#[test]
fn layer_sizes_of_two_datagrams() {
    let c = series(&[10, 50]);
    assert_eq!(c.l7_size(), 60);
    assert_eq!(c.l4_size(), 76);
    assert_eq!(c.l3_size(), 116);
    assert_eq!(c.l2_size(), 160);
    assert_eq!(c.as_l4_iter(), vec![18, 58]);
    assert_eq!(c.as_l3_iter(), vec![38, 78]);
    assert_eq!(c.as_l2_iter(), vec![64, 96]);
    assert_eq!(c.as_l7_iter(), vec![10, 50]);
}

#[test]
fn empty_series_is_zero_at_every_layer() {
    let c = UdpByteCount::default();
    assert_eq!(c.l7_size(), 0);
    assert_eq!(c.l4_size(), 0);
    assert_eq!(c.l3_size(), 0);
    assert_eq!(c.l2_size(), 0);
}

#[test]
fn from_l7_holds_one_datagram() {
    let c = UdpByteCount::from_l7(1000);
    assert_eq!(c.l7, vec![1000]);
    assert_eq!(c.l2_size(), 1046);
    assert_eq!(UdpByteCount::from_l7(0).l2_size(), 64);
    assert_eq!(UdpByteCount::from_l7(18).l2_size(), 64);
    assert_eq!(UdpByteCount::from_l7(19).l2_size(), 65);
}

#[test]
fn layers_grow_from_payload_to_frame() {
    let c = series(&[0, 1, 17, 18, 19, 1500]);
    assert!(c.l7_size() <= c.l4_size());
    assert!(c.l4_size() <= c.l3_size());
    assert!(c.l3_size() <= c.l2_size());
}

#[test]
fn add_concatenates_and_adds_totals() {
    let a = series(&[10, 50]);
    let b = series(&[1000]);
    let c = a.clone().add(b.clone());
    assert_eq!(c.l7, vec![10, 50, 1000]);
    assert_eq!(c.l2_size(), a.l2_size() + b.l2_size());
    let mut d = a.clone();
    d.add_assign(b);
    assert!(d == c);
    assert!(d != a);
}

#[test]
fn many_small_datagrams_cost_more_than_one_large() {
    let many = series(&[1; 10]);
    let one = series(&[10]);
    assert_eq!(many.l7_size(), one.l7_size());
    assert_eq!(many.l2_size(), 640);
    assert_eq!(one.l2_size(), 64);
}

#[test]
fn factor_of_small_request_large_response() {
    let a = sample(&[10], &[1000]);
    assert_eq!(a.factor_ratio(), Some((1046, 64)));
    assert_eq!(factor(&a), 16.34375);
}

#[test]
fn factor_is_zero_without_inbound_bytes() {
    let a = sample(&[], &[1000]);
    assert_eq!(a.factor_ratio(), None);
    assert_eq!(factor(&a), 0.0);
    let b = sample(&[], &[]);
    assert_eq!(b.factor_ratio(), None);
}

#[test]
fn higher_factor_ranks_higher() {
    let a = sample(&[10], &[1000]);
    let b = sample(&[100], &[1000]);
    assert_eq!(a.cmp(&b), Ordering::Greater);
    assert_eq!(b.cmp(&a), Ordering::Less);
    assert_eq!(a.cmp(&a), Ordering::Equal);
}

#[test]
fn ranking_agrees_with_factor() {
    let pairs = vec![
        (sample(&[10], &[1000]), sample(&[100], &[1000])),
        (sample(&[10], &[10]), sample(&[10], &[10, 10])),
        (sample(&[500], &[20, 20, 20]), sample(&[30], &[100])),
        (sample(&[1, 2], &[3000]), sample(&[4000], &[5000, 6000])),
        (sample(&[64], &[64]), sample(&[10], &[10])),
    ];
    for (a, b) in &pairs {
        let expected = factor(a).partial_cmp(&factor(b)).unwrap();
        assert_eq!(a.cmp(b), expected);
        assert_eq!(b.cmp(a), expected.reverse());
    }
}

#[test]
fn ranking_without_inbound_uses_outbound_totals() {
    let a = sample(&[], &[1000]);
    let b = sample(&[], &[10]);
    assert_eq!(a.cmp(&b), Ordering::Greater);
    assert_eq!(b.cmp(&a), Ordering::Less);
    let c = sample(&[10], &[10]);
    assert_eq!(a.cmp(&c), Ordering::Greater);
    assert_eq!(sample(&[], &[]).cmp(&sample(&[], &[])), Ordering::Equal);
}

#[test]
fn ranking_is_transitive() {
    let a = sample(&[10], &[5000]);
    let b = sample(&[10], &[1000]);
    let c = sample(&[100], &[1000]);
    assert_eq!(a.cmp(&b), Ordering::Greater);
    assert_eq!(b.cmp(&c), Ordering::Greater);
    assert_eq!(a.cmp(&c), Ordering::Greater);
}

#[test]
fn ranking_of_large_totals_does_not_overflow() {
    let big = usize::MAX / 4;
    let a = sample(&[big], &[big]);
    let b = sample(&[big], &[10]);
    assert_eq!(a.cmp(&b), Ordering::Greater);
}

#[test]
fn samples_compare_equal_by_content() {
    assert!(sample(&[1], &[2]) == sample(&[1], &[2]));
    assert!(sample(&[1], &[2]) != sample(&[2], &[1]));
    let d = AmpByteCount::default();
    assert!(d == sample(&[], &[]));
}

#[test]
fn checked_l2_size_reports_overflow() {
    assert_eq!(series(&[10, 50]).checked_l2_size(), Some(160));
    assert_eq!(UdpByteCount::default().checked_l2_size(), Some(0));
    assert_eq!(series(&[usize::MAX - 46]).checked_l2_size(), Some(usize::MAX));
    assert_eq!(series(&[usize::MAX - 45]).checked_l2_size(), None);
    assert_eq!(series(&[usize::MAX / 2, usize::MAX / 2]).checked_l2_size(), None);
}
