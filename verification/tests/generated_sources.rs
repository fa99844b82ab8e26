use html_template_bench::templates::{build_single_update, build_template_set};

#[test]
fn template_set_with_a_short_chain() {
    let expected = [
        "{{define \"root\"}}{{template \"t0\" .}}{{end}}",
        "{{define \"t0\"}}<a href=\"/p0/{{.U}}?q=0\">{{template \"t1\" .}}</a>{{end}}",
        "{{define \"t1\"}}<span>{{.X}}</span>{{end}}",
        "{{define \"u0\"}}<section data-id=\"0\">{{.X}}-{{.U}}</section>{{end}}",
    ]
    .join("");
    assert_eq!(build_template_set(2, 1), expected);
}

#[test]
fn template_set_without_templates_is_only_root() {
    assert_eq!(
        build_template_set(0, 0),
        "{{define \"root\"}}{{template \"t0\" .}}{{end}}"
    );
}

#[test]
fn template_set_counts_and_order() {
    let src = build_template_set(40, 400);
    assert_eq!(src.matches("{{define \"t").count(), 40);
    assert_eq!(src.matches("{{define \"u").count(), 400);
    assert!(src.contains("{{define \"t38\"}}<a href=\"/p38/{{.U}}?q=38\">{{template \"t39\" .}}</a>{{end}}"));
    assert!(src.contains("{{define \"t39\"}}<span>{{.X}}</span>{{end}}"));
    assert!(src.ends_with("{{define \"u399\"}}<section data-id=\"399\">{{.X}}-{{.U}}</section>{{end}}"));
}

#[test]
fn single_update_in_the_middle_calls_the_next() {
    assert_eq!(
        build_single_update(20, 7, 40),
        "{{define \"t20\"}}<a href=\"/p20/{{.U}}?v=7\">{{template \"t21\" .}}</a>{{end}}"
    );
}

#[test]
fn single_update_of_the_last_prints_x() {
    assert_eq!(
        build_single_update(39, 0, 40),
        "{{define \"t39\"}}<a href=\"/p39/{{.U}}?v=0\">{{.X}}</a>{{end}}"
    );
}

#[test]
fn update_calls_the_same_next_template_as_the_set() {
    let tail = "{{template \"t21\" .}}</a>{{end}}";
    assert!(build_single_update(20, 3, 40).ends_with(tail));
    let set = build_template_set(40, 0);
    let start = set.find("{{define \"t20\"}}").expect("t20 is defined");
    let end = set.find("{{define \"t21\"}}").expect("t21 is defined");
    assert!(set[start..end].ends_with(tail));
}

#[test]
fn update_in_its_own_step_is_the_definition_in_the_set() {
    let set = build_template_set(40, 5);
    for index in [0usize, 20, 38] {
        let patch = build_single_update(index, index, 40).replace("?v=", "?q=");
        assert!(set.contains(&patch), "t{index}");
    }
}
