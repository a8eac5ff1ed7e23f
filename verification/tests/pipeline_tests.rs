use dumpcolor::accum::Accumulator;
use dumpcolor::colors::ColorTable;
use dumpcolor::format::write_repr;
use dumpcolor::grammar::{tcpdump_parser, HostPort, TcpdumpLine};

fn tcp(src_host: &str, src_port: &str, dst_host: &str, dst_port: &str) -> TcpdumpLine {
    TcpdumpLine::Tcp(
        HostPort {
            host: src_host.as_bytes().to_vec(),
            port: src_port.as_bytes().to_vec(),
        },
        HostPort {
            host: dst_host.as_bytes().to_vec(),
            port: dst_port.as_bytes().to_vec(),
        },
        ": Flags [.]".as_bytes().to_vec(),
    )
}

fn data(hex: &str, approx: &str) -> TcpdumpLine {
    TcpdumpLine::Data(hex.as_bytes().to_vec(), approx.as_bytes().to_vec())
}

#[test]
fn test_color_slots_are_idempotent() {
    let mut table = ColorTable::new();
    let first = table.color_of("192.168.0.10".as_bytes());
    let second = table.color_of("192.168.0.10".as_bytes());
    assert_eq!(first, 0);
    assert_eq!(first, second);
}

#[test]
fn test_color_slots_cycle_in_first_seen_order() {
    let mut table = ColorTable::new();
    let hosts = ["a", "b", "c", "d", "e", "f", "g", "h"];
    for (i, h) in hosts.iter().enumerate() {
        assert_eq!(table.color_of(h.as_bytes()), i % 6);
    }
    // Asking again, in any order, repeats the first-assigned slots.
    assert_eq!(table.color_of("g".as_bytes()), 0);
    assert_eq!(table.color_of("b".as_bytes()), 1);
}

#[test]
fn test_coalescing_flushes_once_at_next_header() {
    let mut acc = Accumulator::new();
    let o0 = acc.write_out(&tcp("192.168.0.10", "8008", "192.168.0.20", "50314"));
    assert!(o0.flushed.is_none());
    let o1 = acc.write_out(&data("4500 0233", "E..3"));
    let o2 = acc.write_out(&data("b512 4000", ".[@."));
    let o3 = acc.write_out(&data("4006 0244", "@..D"));
    assert!(o1.flushed.is_none() && o1.banner.is_none());
    assert!(o2.flushed.is_none() && o2.banner.is_none());
    assert!(o3.flushed.is_none() && o3.banner.is_none());
    let o4 = acc.write_out(&tcp("192.168.0.20", "50314", "192.168.0.10", "8008"));
    let flushed = o4.flushed.unwrap();
    assert_eq!(flushed.hex, " 4500 0233 b512 4000 4006 0244".as_bytes());
    assert_eq!(flushed.approximation, "E..3.[@.@..D".as_bytes());
    // No further flush is pending after the one at the second header.
    assert!(acc.finish().is_none());
}

#[test]
fn test_capture_header_is_a_flush_boundary() {
    let mut acc = Accumulator::new();
    let header = TcpdumpLine::Ip("00:55:30".as_bytes().to_vec(), "info".as_bytes().to_vec());
    // A capture header over empty buffers does nothing observable.
    let quiet = acc.write_out(&header);
    assert!(quiet.flushed.is_none() && quiet.banner.is_none());
    acc.write_out(&tcp("10.0.0.1", "80", "10.0.0.2", "443"));
    acc.write_out(&data("dead beef", "...."));
    // One over a packet being accumulated flushes it, with no banner.
    let out = acc.write_out(&header);
    let flushed = out.flushed.unwrap();
    assert_eq!(flushed.hex, " dead beef".as_bytes());
    assert!(out.banner.is_none());
    assert!(acc.finish().is_none());
}

#[test]
fn test_end_of_stream_flushes_exactly_once() {
    let mut acc = Accumulator::new();
    acc.write_out(&tcp("10.0.0.1", "80", "10.0.0.2", "443"));
    acc.write_out(&data("dead beef", "...."));
    let first = acc.finish();
    let flushed = first.unwrap();
    assert_eq!(flushed.hex, " dead beef".as_bytes());
    assert_eq!(flushed.approximation, "....".as_bytes());
    let second = acc.finish();
    assert!(second.is_none());
}

#[test]
fn test_banner_announces_hosts_with_slots() {
    let mut acc = Accumulator::new();
    let out = acc.write_out(&tcp("192.168.0.10", "8008", "192.168.0.20", "50314"));
    let banner = out.banner.unwrap();
    assert_eq!(banner.source_host, "192.168.0.10".as_bytes());
    assert_eq!(banner.source_slot, 0);
    assert_eq!(banner.dest_host, "192.168.0.20".as_bytes());
    assert_eq!(banner.dest_slot, 1);
    // The same pair announced again keeps its slots.
    let again = acc.write_out(&tcp("192.168.0.10", "8008", "192.168.0.20", "50314"));
    let banner2 = again.banner.unwrap();
    assert_eq!(banner2.source_slot, 0);
    assert_eq!(banner2.dest_slot, 1);
}

#[test]
fn test_write_repr_selects_approximation() {
    let approx = "E..3".as_bytes().to_vec();
    let hex = " 4500 0233".as_bytes().to_vec();
    let chosen = write_repr(&approx, &hex, "approximation".as_bytes());
    assert_eq!(chosen, Some("E..3".as_bytes().to_vec()));
}

#[test]
fn test_write_repr_selects_hex() {
    let approx = "E..3".as_bytes().to_vec();
    let hex = " 4500 0233".as_bytes().to_vec();
    let chosen = write_repr(&approx, &hex, "hex".as_bytes());
    assert_eq!(chosen, Some(" 4500 0233".as_bytes().to_vec()));
}

#[test]
fn test_write_repr_drops_unknown_mode() {
    let approx = "E..3".as_bytes().to_vec();
    let hex = " 4500 0233".as_bytes().to_vec();
    assert_eq!(write_repr(&approx, &hex, "octal".as_bytes()), None);
}

#[test]
fn test_scenario_one_packet() {
    let lines = [
        "00:55:30.853902 IP (tos 0x0, ttl 63, id 1, offset 0, flags [DF], proto TCP (6), length 60)\n",
        "    192.168.0.10.8008 > 192.168.0.20.50314: Flags [.], win 508, length 0\n",
        "        0x0000:  4500 0233 b512 4000 4006 0244 c0a8 000a  .......\n",
    ];
    let mut acc = Accumulator::new();
    let mut printed: Vec<String> = Vec::new();
    for line in lines.iter() {
        let record = tcpdump_parser(line.as_bytes()).unwrap().1;
        let out = acc.write_out(&record);
        if let Some(flushed) = out.flushed {
            let chosen = write_repr(
                &flushed.approximation,
                &flushed.hex,
                "approximation".as_bytes(),
            )
            .unwrap();
            printed.push(String::from_utf8(chosen).unwrap());
        }
        if let Some(banner) = out.banner {
            assert_eq!(banner.source_host, "192.168.0.10".as_bytes());
            assert_eq!(banner.source_slot, 0);
            assert_eq!(banner.dest_host, "192.168.0.20".as_bytes());
            assert_eq!(banner.dest_slot, 1);
            printed.push(format!(
                "{} -> {}",
                String::from_utf8(banner.source_host).unwrap(),
                String::from_utf8(banner.dest_host).unwrap()
            ));
        }
    }
    if let Some(flushed) = acc.finish() {
        let chosen = write_repr(
            &flushed.approximation,
            &flushed.hex,
            "approximation".as_bytes(),
        )
        .unwrap();
        printed.push(String::from_utf8(chosen).unwrap());
    }
    assert_eq!(
        printed,
        vec!["192.168.0.10 -> 192.168.0.20".to_string(), ".......".to_string()]
    );
}
