use html_template_bench::bench::{average_micros, bench_line};
use html_template_bench::compare::{
    default_items, go_command_args, plan_from_serialized_data, PlanError, index_text, prepare_data_path, prepare_template_path,
    report_line, summarize_outputs, temp_file_name, PathPlan, DEFAULT_ITEMS,
};

#[test]
fn given_template_path_is_used() {
    match prepare_template_path(Some("page.tmpl".to_string())) {
        PathPlan::UseGiven(p) => assert_eq!(p, "page.tmpl"),
        PathPlan::WriteTemp { .. } => panic!("expected the given path"),
    }
}

#[test]
fn default_template_is_written_to_a_temporary_file() {
    match prepare_template_path(None) {
        PathPlan::WriteTemp { tag, content } => {
            assert_eq!(tag, "template");
            assert_eq!(content, "{{range $i, $v := .Items}}{{$i}}:{{$v}};{{end}}");
        }
        PathPlan::UseGiven(_) => panic!("expected a temporary file"),
    }
}

#[test]
fn given_data_path_is_used() {
    match prepare_data_path(Some("d.json".to_string())) {
        Ok(PathPlan::UseGiven(p)) => assert_eq!(p, "d.json"),
        _ => panic!("expected the given path"),
    }
}

#[test]
fn default_data_is_the_json_list_of_items() {
    let numbers: Vec<String> = (0..DEFAULT_ITEMS).map(|i| i.to_string()).collect();
    let expected = format!("{{\"Items\":[{}]}}", numbers.join(","));
    match prepare_data_path(None) {
        Ok(PathPlan::WriteTemp { tag, content }) => {
            assert_eq!(tag, "data");
            assert!(content.starts_with("{\"Items\":[0,1,2,3,"));
            assert!(content.ends_with(",19999]}"));
            assert_eq!(content, expected);
        }
        _ => panic!("expected the built-in data"),
    }
}

#[test]
fn default_items_count_up_from_zero() {
    assert_eq!(default_items(0), Vec::<u64>::new());
    assert_eq!(default_items(4), vec![0, 1, 2, 3]);
}

#[test]
fn temporary_file_names() {
    assert_eq!(
        temp_file_name("data", 4242, 1700000000123456789),
        "go_html_template_compare_data_4242_1700000000123456789.tmp"
    );
    assert_eq!(temp_file_name("template", 0, 0), "go_html_template_compare_template_0_0.tmp");
}

#[test]
fn go_command_arguments() {
    let args = go_command_args("runner/main.go", "/tmp/t", "/tmp/d", "zero", 60);
    assert_eq!(
        args,
        vec![
            "run", "runner/main.go", "--template", "/tmp/t", "--data", "/tmp/d", "--loops", "60",
            "--missingkey", "zero",
        ]
    );
}

#[test]
fn equal_outputs_match() {
    let s = summarize_outputs("0:0;1:1;", "0:0;1:1;");
    assert!(s.output_match);
    assert!(s.mismatch.is_none());
}

#[test]
fn different_outputs_report_where_they_differ() {
    let s = summarize_outputs("0:0;1:1;", "0:0;1:2;");
    assert!(!s.output_match);
    let m = s.mismatch.expect("a mismatch");
    assert_eq!(m.first_diff_byte, Some(6));
    assert_eq!(m.rust_preview, "0:0;1:1;");
    assert_eq!(m.go_preview, "0:0;1:2;");

    let long_a = "a".repeat(300);
    let long_b = "a".repeat(299);
    let s = summarize_outputs(&long_a, &long_b);
    let m = s.mismatch.expect("a mismatch");
    assert_eq!(m.first_diff_byte, Some(299));
    assert_eq!(m.rust_preview.chars().count(), 200);
    assert_eq!(m.go_preview.chars().count(), 200);
}

#[test]
fn report_lines_pad_the_label() {
    assert_eq!(report_line("output_match", "true"), "output_match             true");
    assert_eq!(
        report_line("a_label_longer_than_the_column", "x"),
        "a_label_longer_than_the_column x"
    );
    assert_eq!(report_line("rust_parse", "avg_us=12"), format!("{:<24} {}", "rust_parse", "avg_us=12"));
}

#[test]
fn index_texts() {
    assert_eq!(index_text(Some(17)), "17");
    assert_eq!(index_text(None), "none");
}

#[test]
fn averages_round_down() {
    assert_eq!(average_micros(1000, 3), 333);
    assert_eq!(average_micros(0, 5), 0);
    assert_eq!(average_micros(7, 7), 1);
}

#[test]
fn bench_lines_have_aligned_columns() {
    assert_eq!(
        bench_line("parse_small", 28, 500, 12),
        format!("{:28} loops={:4} avg_us={}", "parse_small", 500, 12)
    );
    assert_eq!(
        bench_line("exec_range_template_empty", 30, 60, 1234),
        format!("{:30} loops={:4} avg_us={}", "exec_range_template_empty", 60, 1234)
    );
    assert_eq!(bench_line("x", 0, 12345, 0), "x loops=12345 avg_us=0");
}

#[test]
fn serialized_data_becomes_a_plan() {
    match plan_from_serialized_data(Ok("{\"Items\":[]}".to_string())) {
        Ok(PathPlan::WriteTemp { tag, content }) => {
            assert_eq!(tag, "data");
            assert_eq!(content, "{\"Items\":[]}");
        }
        _ => panic!("expected a temporary file"),
    }
    let error = serde_json::from_str::<u64>("x").unwrap_err();
    assert!(matches!(plan_from_serialized_data(Err(error)), Err(PlanError::Serialize)));
}
