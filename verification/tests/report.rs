use dockwatch::volumes::{
    volume_size_in_report, volume_sizes_from_process_output, VolumeSizeTable,
};

fn sample_report() -> String {
    [
        "Images space usage:",
        "",
        "REPOSITORY   TAG   IMAGE ID   CREATED   SIZE   SHARED SIZE   UNIQUE SIZE   CONTAINERS",
        "nginx        1.25  0123abcd   2 days    187MB  0B            187MB         1",
        "",
        "Local Volumes space usage:",
        "",
        "VOLUME NAME   LINKS   SIZE",
        "pgdata        1       1.5GB",
        "cache         0       256MB",
        "scratch       0       0B",
        "",
        "Build cache usage: 0B",
    ]
    .join("\n")
}

#[test]
fn well_formed_entries_are_all_collected() {
    let table = VolumeSizeTable::from_report(&sample_report());
    assert_eq!(table.len(), 3);
    assert_eq!(table.get("pgdata"), 1610612736);
    assert_eq!(table.get("cache"), 256 * 1024 * 1024);
    assert_eq!(table.get("scratch"), 0);
}

#[test]
fn report_without_volume_section_yields_empty_table() {
    let table = VolumeSizeTable::from_report("REPOSITORY  TAG\nnginx  1.25\n");
    assert_eq!(table.len(), 0);
}

#[test]
fn empty_report_yields_empty_table() {
    let table = VolumeSizeTable::from_report("");
    assert_eq!(table.len(), 0);
}

#[test]
fn single_entry_report() {
    let table = VolumeSizeTable::from_report("VOLUME NAME  LINKS  SIZE\nv1  2  10KB\n");
    assert_eq!(table.len(), 1);
    assert_eq!(table.get("v1"), 10 * 1024);
}

#[test]
fn malformed_lines_are_dropped_not_fatal() {
    let text = [
        "VOLUME NAME   LINKS   SIZE",
        "good          1       1KB",
        "only-two-fields 1",
        "badsize       1       1QB",
        "alsogood      0       2KB",
    ]
    .join("\n");
    let table = VolumeSizeTable::from_report(&text);
    assert_eq!(table.len(), 2);
    assert_eq!(table.get("good"), 1024);
    assert_eq!(table.get("alsogood"), 2048);
    assert_eq!(table.get("badsize"), 0);
}

#[test]
fn blank_line_ends_the_section() {
    let text = "VOLUME NAME  LINKS  SIZE\nseen  1  1KB\n\nunseen  1  1KB\n";
    let table = VolumeSizeTable::from_report(text);
    assert_eq!(table.len(), 1);
    assert_eq!(table.get("seen"), 1024);
    assert_eq!(table.get("unseen"), 0);
}

#[test]
fn next_section_header_ends_the_section() {
    let text = "VOLUME NAME  LINKS  SIZE\nseen  1  1KB\nBuild Cache usage\nunseen  1  1KB\n";
    let table = VolumeSizeTable::from_report(text);
    assert_eq!(table.len(), 1);
    assert_eq!(table.get("unseen"), 0);
}

#[test]
fn repository_header_ends_the_section() {
    let text = "VOLUME NAME  LINKS  SIZE\nseen  1  1KB\nREPOSITORY  TAG\nunseen  1  1KB\n";
    let table = VolumeSizeTable::from_report(text);
    assert_eq!(table.len(), 1);
}

#[test]
fn duplicate_names_resolve_to_the_last_entry() {
    let text = "VOLUME NAME  LINKS  SIZE\ntwice  1  1KB\ntwice  1  2KB\n";
    let table = VolumeSizeTable::from_report(text);
    assert_eq!(table.len(), 2);
    assert_eq!(table.get("twice"), 2048);
}

#[test]
fn absent_name_reports_zero_not_failure() {
    let table = VolumeSizeTable::from_report(&sample_report());
    assert_eq!(table.get("no-such-volume"), 0);
    assert_eq!(volume_size_in_report(&sample_report(), "missing"), 0);
    assert_eq!(volume_size_in_report("", "anything"), 0);
}

#[test]
fn lookup_helper_matches_table() {
    assert_eq!(
        volume_size_in_report(&sample_report(), "cache"),
        256 * 1024 * 1024
    );
}

#[test]
fn successful_process_output_is_parsed() {
    let r = volume_sizes_from_process_output(true, &sample_report(), "");
    let table = r.expect("success must parse");
    assert_eq!(table.len(), 3);
    assert_eq!(table.get("pgdata"), 1610612736);
}

#[test]
fn failed_process_output_is_an_execution_error() {
    let r = volume_sizes_from_process_output(false, "ignored", "permission denied");
    let err = match r {
        Ok(_) => panic!("a failed process must not yield a table"),
        Err(e) => e,
    };
    assert_eq!(err.message(), "Docker system df failed: permission denied");
}
