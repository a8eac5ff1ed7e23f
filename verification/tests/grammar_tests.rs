use dumpcolor::grammar::{
    frame_info, not_colon, not_whitespace, parse_data_line, parse_host_port, parse_ip_line,
    parse_tcp_line, parse_timestamp, tcpdump_parser, HostPort, LineError, SubErr, TcpdumpLine,
};

#[test]
fn test_timestamp() {
    assert_eq!(
        parse_timestamp("00:55:30.853902 IP".as_bytes()).unwrap().1,
        "00:55:30.853902".as_bytes()
    );
}

#[test]
fn test_frame_info() {
    let parsed = frame_info(
        "(tos 0x0, ttl 63, id 60307, offset 0, flags [DF], proto TCP (6), length 117)
"
        .as_bytes(),
    );
    assert_eq!(
        parsed.unwrap().1,
        "(tos 0x0, ttl 63, id 60307, offset 0, flags [DF], proto TCP (6), length 117)"
            .as_bytes()
    )
}

#[test]
fn test_ip_line() {
    assert_eq!(
        parse_ip_line("00:55:30.853902 IP (tos 0x0, ttl 63, id 60304, offset 0, flags [DF], proto TCP (6), length 60)
".as_bytes()).unwrap().1,
        TcpdumpLine::Ip("00:55:30.853902".as_bytes().to_vec(), "(tos 0x0, ttl 63, id 60304, offset 0, flags [DF], proto TCP (6), length 60)".as_bytes().to_vec())
    );
}

#[test]
fn test_host_port_splits_at_last_dot() {
    let hp = parse_host_port("192.168.0.10.8008".as_bytes()).unwrap();
    assert_eq!(hp.host, "192.168.0.10".as_bytes());
    assert_eq!(hp.port, "8008".as_bytes());
}

#[test]
fn test_host_port_without_separator() {
    assert_eq!(parse_host_port("localhost".as_bytes()), None);
}

#[test]
fn test_tcp_line() {
    let line = "    192.168.0.10.8008 > 192.168.0.20.50314: Flags [.], win 508, length 0\n";
    let parsed = parse_tcp_line(line.as_bytes()).unwrap().1;
    assert_eq!(
        parsed,
        TcpdumpLine::Tcp(
            HostPort {
                host: "192.168.0.10".as_bytes().to_vec(),
                port: "8008".as_bytes().to_vec(),
            },
            HostPort {
                host: "192.168.0.20".as_bytes().to_vec(),
                port: "50314".as_bytes().to_vec(),
            },
            ": Flags [.], win 508, length 0".as_bytes().to_vec(),
        )
    );
}

#[test]
fn test_data_line() {
    let line = "        0x0000:  4500 0233 b512 4000 4006 0244 c0a8 000a  .......\n";
    let parsed = parse_data_line(line.as_bytes()).unwrap().1;
    assert_eq!(
        parsed,
        TcpdumpLine::Data(
            "4500 0233 b512 4000 4006 0244 c0a8 000a".as_bytes().to_vec(),
            ".......".as_bytes().to_vec(),
        )
    );
}

#[test]
fn test_token_scanners() {
    assert_eq!(not_whitespace("".as_bytes()), Err(SubErr::MoreInput));
    assert_eq!(not_whitespace(" x".as_bytes()), Err(SubErr::NoMatch));
    assert_eq!(not_colon("abc".as_bytes()), Err(SubErr::MoreInput));
    let (rest, taken) = not_colon("0x0000:  45".as_bytes()).unwrap();
    assert_eq!(taken, "0x0000".as_bytes());
    assert_eq!(rest, ":  45".as_bytes());
}

#[test]
fn test_parser_priority() {
    // The capture-header grammar wins over the others on its lines ...
    let ip = tcpdump_parser("00:55:30.853902 IP info here\n".as_bytes()).unwrap().1;
    assert!(matches!(ip, TcpdumpLine::Ip(_, _)));
    // ... and a hex-dump row, whose offset column also looks like a
    // token, still classifies as data.
    let data = tcpdump_parser(
        "        0x0010:  0233 b512 4000 4006 0244 c0a8 000a 4500  ..3..@.@\n".as_bytes(),
    )
    .unwrap()
    .1;
    assert!(matches!(data, TcpdumpLine::Data(_, _)));
}

#[test]
fn test_malformed_line_is_fatal_with_bytes() {
    let line = "x: y\n";
    let err = tcpdump_parser(line.as_bytes()).unwrap_err();
    assert_eq!(err, LineError::Malformed(line.as_bytes().to_vec()));
}

#[test]
fn test_endpoint_without_dot_is_malformed() {
    let line = "    nodot > 1.2: Flags [.]\n";
    let err = tcpdump_parser(line.as_bytes()).unwrap_err();
    assert_eq!(err, LineError::Malformed(line.as_bytes().to_vec()));
}

#[test]
fn test_line_without_break_is_incomplete() {
    let err = tcpdump_parser("00:55:30.853902 IP info here".as_bytes()).unwrap_err();
    assert_eq!(err, LineError::Incomplete);
}

#[test]
fn test_line_ending_inside_literal_is_incomplete() {
    // The line stops inside the `" IP "` separator itself.
    let err = tcpdump_parser("00:55:30.853902 IP".as_bytes()).unwrap_err();
    assert_eq!(err, LineError::Incomplete);
}

#[test]
fn test_short_hex_column_is_incomplete() {
    let err = tcpdump_parser("        0x0000:  4500 0233\n".as_bytes()).unwrap_err();
    assert_eq!(err, LineError::Incomplete);
}
