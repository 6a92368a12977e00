//! Tests of the search / sort / pagination view.

use sniffnet::flow::{
    Address, AppProtocol, CountryCode, FlowKey, FlowRecord, TrafficDirection, TransProtocol,
};
use sniffnet::search::{query, query_page, ReportSortType, SearchParameters};

fn record(index: usize, last_seen: u64, bytes: u64, packets: u64, country: [u8; 2]) -> FlowRecord {
    FlowRecord {
        key: FlowKey {
            addr_a: Address::V4(index as u32),
            port_a: 1,
            addr_b: Address::V4(0xffff_0000 + index as u32),
            port_b: 443,
            proto: TransProtocol::Tcp,
        },
        first_seen: 0,
        last_seen,
        packets_out: packets,
        packets_in: 0,
        bytes_out: bytes,
        bytes_in: 0,
        app_protocol: AppProtocol::Https,
        country: CountryCode { c0: country[0], c1: country[1] },
        traffic_direction: TrafficDirection::LocalToRemote,
        remote: Address::V4(0xffff_0000 + index as u32),
        index,
    }
}

fn params(country: &str) -> SearchParameters {
    SearchParameters { country: country.as_bytes().to_vec() }
}

#[test]
fn sort_determinism_most_bytes() {
    // A and B tie on bytes; B was seen later, so B comes first; C trails.
    let a = record(0, 10, 100, 1, *b"US");
    let b = record(1, 20, 100, 1, *b"US");
    let c = record(2, 30, 50, 1, *b"US");
    let snapshot = vec![a, b, c];
    let (entries, total) = query(&snapshot, &params(""), ReportSortType::MostBytes, 1, 10);
    assert_eq!(total, 3);
    let order: Vec<usize> = entries.iter().map(|r| r.index).collect();
    assert_eq!(order, vec![1, 0, 2]);
}

#[test]
fn sort_most_recent_breaks_ties_by_index() {
    let a = record(0, 50, 1, 1, *b"US");
    let b = record(1, 50, 2, 2, *b"US");
    let c = record(2, 40, 3, 3, *b"US");
    let snapshot = vec![a, b, c];
    let (entries, _) = query(&snapshot, &params(""), ReportSortType::MostRecent, 1, 10);
    let order: Vec<usize> = entries.iter().map(|r| r.index).collect();
    assert_eq!(order, vec![1, 0, 2]);
}

#[test]
fn sort_most_packets() {
    let a = record(0, 10, 5, 7, *b"US");
    let b = record(1, 20, 5, 3, *b"US");
    let c = record(2, 30, 5, 9, *b"US");
    let snapshot = vec![a, b, c];
    let (entries, _) = query(&snapshot, &params(""), ReportSortType::MostPackets, 1, 10);
    let order: Vec<usize> = entries.iter().map(|r| r.index).collect();
    assert_eq!(order, vec![2, 0, 1]);
}

#[test]
fn country_filter_counts() {
    let snapshot = vec![
        record(0, 1, 1, 1, *b"US"),
        record(1, 2, 1, 1, *b"US"),
        record(2, 3, 1, 1, *b"DE"),
        record(3, 4, 1, 1, *b"ZZ"),
    ];
    let (_, total_us) = query(&snapshot, &params("us"), ReportSortType::MostRecent, 1, 10);
    assert_eq!(total_us, 2);
    let (_, total_zz) = query(&snapshot, &params("zz"), ReportSortType::MostRecent, 1, 10);
    assert_eq!(total_zz, 1);
    let (_, total_all) = query(&snapshot, &params(""), ReportSortType::MostRecent, 1, 10);
    assert_eq!(total_all, 4);
}

#[test]
fn country_filter_single_letter_is_substring() {
    let snapshot = vec![record(0, 1, 1, 1, *b"US"), record(1, 2, 1, 1, *b"DE")];
    let (entries, total) = query(&snapshot, &params("s"), ReportSortType::MostRecent, 1, 10);
    assert_eq!(total, 1);
    assert_eq!(entries[0].index, 0);
    let (_, none) = query(&snapshot, &params("use"), ReportSortType::MostRecent, 1, 10);
    assert_eq!(none, 0);
}

#[test]
fn filter_matching_zero_rows_returns_empty_total() {
    let snapshot = vec![record(0, 1, 1, 1, *b"US")];
    let (entries, total) = query(&snapshot, &params("fr"), ReportSortType::MostRecent, 1, 10);
    assert!(entries.is_empty());
    assert_eq!(total, 0);
}

#[test]
fn page_out_of_range_is_clamped() {
    let snapshot: Vec<FlowRecord> =
        (0..25).map(|i| record(i, i as u64, 1, 1, *b"US")).collect();
    // Page 0 clamps to page 1.
    let (first, total) = query(&snapshot, &params(""), ReportSortType::MostRecent, 0, 10);
    assert_eq!(total, 25);
    assert_eq!(first.len(), 10);
    assert_eq!(first[0].index, 24);
    // Page 99 clamps to the last page, which holds the remainder.
    let (last, _) = query_page(&snapshot, &params(""), ReportSortType::MostRecent, 99);
    assert_eq!(last.len(), 5);
    assert_eq!(last[4].index, 0);
    // An empty snapshot yields an empty page and total 0 on any page.
    let empty: Vec<FlowRecord> = Vec::new();
    let (none, zero) = query(&empty, &params(""), ReportSortType::MostRecent, 0, 10);
    assert!(none.is_empty());
    assert_eq!(zero, 0);
}

#[test]
fn pages_concatenated_cover_everything_once() {
    let snapshot: Vec<FlowRecord> =
        (0..25).map(|i| record(i, (i % 7) as u64, (i % 5) as u64, 1, *b"US")).collect();
    let mut seen: Vec<usize> = Vec::new();
    for page in 1..=3 {
        let (entries, total) = query(&snapshot, &params(""), ReportSortType::MostBytes, page, 10);
        assert_eq!(total, 25);
        seen.extend(entries.iter().map(|r| r.index));
    }
    assert_eq!(seen.len(), 25);
    let mut sorted = seen.clone();
    sorted.sort_unstable();
    assert_eq!(sorted, (0..25).collect::<Vec<usize>>());
}

#[test]
fn query_is_deterministic() {
    let snapshot: Vec<FlowRecord> =
        (0..12).map(|i| record(i, (i % 3) as u64, (i % 4) as u64, 1, *b"US")).collect();
    let (a, ta) = query(&snapshot, &params("us"), ReportSortType::MostBytes, 2, 5);
    let (b, tb) = query(&snapshot, &params("us"), ReportSortType::MostBytes, 2, 5);
    assert_eq!(ta, tb);
    let ia: Vec<usize> = a.iter().map(|r| r.index).collect();
    let ib: Vec<usize> = b.iter().map(|r| r.index).collect();
    assert_eq!(ia, ib);
}
