use std::time::Duration;

use oprs::export::rrdtool::{
    create_command, graph_command, graph_size, parse_graph_size, read_answer_line,
    update_command, Error,
};

fn read_answer(output: &str, capture: bool) -> (Result<(), Error>, Vec<String>) {
    let mut lines = Vec::new();
    for line in output.split_inclusive('\n') {
        if let Some(result) = read_answer_line(line, capture, &mut lines) {
            return (result, lines);
        }
    }
    (Err(Error::EndOfStream), lines)
}

#[test]
fn parse_graph_sizes() {
    let (width, height) = parse_graph_size("481x155\n").ok().unwrap();
    assert_eq!(481, width);
    assert_eq!(155, height);

    assert!(parse_graph_size("1x2x3\n").is_err());
}

#[test]
fn parse_rrdtool_answer() {
    let (result, lines) = read_answer("OK u:0,01 s:0,02 r:8,05", false);
    assert!(result.is_ok());
    assert!(lines.is_empty());

    let (result, lines) = read_answer("OK u:0,01 s:0,02 r:8,05", true);
    assert!(result.is_ok());
    assert!(lines.is_empty());

    let (result, lines) = read_answer(
        "ERROR: you must define at least one Round Robin Archive",
        true,
    );
    match result {
        Ok(()) => panic!("rrdtool error not correctly parsed"),
        Err(Error::Process(message)) => {
            assert_eq!("you must define at least one Round Robin Archive", message)
        }
        Err(_) => panic!("wrong error"),
    }
    assert!(lines.is_empty());

    let (result, lines) = read_answer("481x155\nOK u:0,07 s:0,01 r:0,06", true);
    assert!(result.is_ok());
    assert_eq!(1, lines.len());
    assert_eq!("481x155", lines[0]);
    assert_eq!((481, 155), graph_size(&lines).ok().unwrap());
}

#[test]
fn graph_size_errors() {
    assert!(matches!(graph_size(&[]), Err(Error::MissingGraphSize)));
    match parse_graph_size("12xabc  \n") {
        Err(Error::InvalidGraphSize(text)) => assert_eq!("12xabc", text),
        _ => panic!("invalid size accepted"),
    }
    assert_eq!((3, 4), parse_graph_size("+3x+4").ok().unwrap());
    assert!(parse_graph_size("x4").is_err());
    assert!(parse_graph_size("99999999999999999999999x4").is_err());
}

#[test]
fn error_without_message() {
    let (result, _) = read_answer("ERROR:\n", true);
    match result {
        Err(Error::Process(message)) => assert_eq!("no error message", message),
        _ => panic!("error not detected"),
    }
}

#[test]
fn commands_for_rrdtool() {
    let ds = vec!["DS:mem_vm:GAUGE:10:0:U".to_string()];
    assert_eq!(
        "create db.rrd --start=95 --step=5 DS:mem_vm:GAUGE:10:0:U RRA:AVERAGE:0.5:1:12\n",
        create_command("db.rrd", &ds, Duration::new(95, 300), Duration::new(5, 0), 12)
    );
    assert_eq!(
        "update db.rrd 100:1:22\n",
        update_command("db.rrd", &[1, 22], Duration::new(100, 999))
    );
    assert_eq!(
        "graph g.png --start=0 --end=60 --title=\"mem vm\" DEF:v0=db.rrd:mem_vm:AVERAGE\n",
        graph_command(
            "g.png",
            Duration::new(0, 0),
            Duration::new(60, 0),
            &["DEF:v0=db.rrd:mem_vm:AVERAGE".to_string()],
            Some("mem vm")
        )
    );
}
