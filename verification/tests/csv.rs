use oprs::agg::{Aggregation, AggregationSet};
use oprs::cfg::{ExportSettings, ExportType};
use oprs::export::csv::{shift_plan, shifted_name, write_line, write_numbers_line, CsvExporter, Error};
use oprs::format::Formatter;
use oprs::metrics::{FormattedMetric, MetricId};

fn strings(v: &[&str]) -> Vec<String> {
    v.iter().map(|s| s.to_string()).collect()
}

#[test]
fn write_csv_line_of_string() {
    let line = write_line(',', &strings(&["abc", "def"]));
    assert_eq!("abc,def\n", line);
}

#[test]
fn write_csv_line_of_integer() {
    let line = write_numbers_line(',', &[123u64, 456u64]);
    assert_eq!("123,456\n", line);
}

#[test]
fn write_quoted_csv() {
    let line = write_line(',', &strings(&["123,4", "567,5"]));
    assert_eq!("\"123,4\",\"567,5\"\n", line);
}

#[test]
fn tab_separated_values_are_not_quoted_for_commas() {
    assert_eq!("a,b\tc\td\n", write_line('\t', &strings(&["a,b", "c", "d"])));
    assert_eq!("\"a\tb\"\n", write_line('\t', &strings(&["a\tb"])));
    assert_eq!("", write_line(',', &[]));
}

fn settings(kind: ExportType, size: Option<u64>, count: Option<usize>) -> ExportSettings {
    let mut s = ExportSettings::new();
    s.kind = kind;
    s.size = size;
    s.count = count;
    s
}

#[test]
fn csv_exporter_needs_a_count_with_a_size() {
    assert!(matches!(
        CsvExporter::new(&settings(ExportType::Csv, Some(1000), None)),
        Err(Error::MissingCount)
    ));
    let e = CsvExporter::new(&settings(ExportType::Tsv, None, Some(3))).ok().unwrap();
    assert_eq!(e.separator, '\t');
    assert_eq!(e.extension, "tsv");
    assert_eq!(e.count, None);
    let e = CsvExporter::new(&settings(ExportType::Csv, Some(1000), Some(3))).ok().unwrap();
    assert_eq!(e.count, Some(3));
}

#[test]
fn csv_header_names_aggregations() {
    let mut aggregations = AggregationSet::new();
    aggregations.set(Aggregation::Raw);
    aggregations.set(Aggregation::Min);
    aggregations.set(Aggregation::Ratio);
    let metrics = vec![FormattedMetric {
        id: MetricId::MemVm,
        aggregations,
        format: Formatter::Identity,
    }];
    let mut e = CsvExporter::new(&settings(ExportType::Csv, None, None)).ok().unwrap();
    e.open(&metrics);
    assert_eq!(e.header, strings(&["time", "mem:vm", "mem:vm (min)", "mem:vm (%)"]));
}

#[test]
fn shifting_files() {
    assert_eq!("data.csv.2", shifted_name("data.csv", 2));
    // No limit: nothing to shift.
    assert!(shift_plan(None, &[true, true]).is_empty());
    // Ranks 1 and 2 exist, keep 3 files: 1 -> 2 first, then 0 -> 1.
    assert_eq!(shift_plan(Some(3), &[true, true, true]), vec![(1, 2), (0, 1)]);
    // Rank 1 is free: only 0 -> 1.
    assert_eq!(shift_plan(Some(3), &[true, false, true]), vec![(0, 1)]);
    // A single file is kept: nothing moves.
    assert!(shift_plan(Some(1), &[true]).is_empty());
}
