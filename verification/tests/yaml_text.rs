use cptool::package::initial_problem_yaml;
use cptool::report::CheckReport;
use cptool::yaml_shape::{
    check_problem_yaml_fields, parse_yaml, yaml_doc_of, ParsedNode, YamlKey, YamlNode,
};

const PACKAGE: &str = "name: p
colour: red
programs:
  std:
    info: !cpp
      path: a.cpp
      flags: x
    extra: 1
test:
  bundles:
    sample:
      cases:
      - {args: [], seed: 1}
  tasks:
  - name: t
  - name: u
    weight: 2
";

#[test]
fn problem_yaml_text_fields_are_checked_through_tags() {
    let mut report = CheckReport::new("/pkg".to_string());
    check_problem_yaml_fields(&mut report, &"/pkg/problem.yaml".to_string(), PACKAGE);
    let found: Vec<(String, String)> = report
        .issues
        .iter()
        .map(|i| (i.message.clone(), i.location.clone().unwrap()))
        .collect();
    assert_eq!(
        found,
        vec![
            ("unknown problem.yaml field `colour`".to_string(), "colour".to_string()),
            ("unknown problem.yaml field `extra`".to_string(), "programs.std.extra".to_string()),
            ("unknown problem.yaml field `flags`".to_string(), "programs.std.info.flags".to_string()),
            ("unknown problem.yaml field `seed`".to_string(), "test.bundles.sample.cases[0].seed".to_string()),
            ("unknown problem.yaml field `weight`".to_string(), "test.tasks[1].weight".to_string()),
        ]
    );
}

#[test]
fn text_that_is_not_yaml_adds_no_field_warning() {
    assert!(parse_yaml("key: [unclosed").is_none());
    let mut report = CheckReport::new("/pkg".to_string());
    check_problem_yaml_fields(&mut report, &"/pkg/problem.yaml".to_string(), "key: [unclosed");
    assert!(report.issues.is_empty());
}

#[test]
fn initial_problem_yaml_is_a_known_layout_for_special_names() {
    for id in ["a_plus_b", "A + B: special", "题目 #1"] {
        let text = initial_problem_yaml(id);
        assert!(text.starts_with("name: "));
        assert!(text.contains("\ntime_limit_secs: 3.0\nmemory_limit_mb: 512.0\n"));
        assert!(text.ends_with("  - name: sample\n    score: 100.0\n    bundles: [sample]\n"));
        let mut report = CheckReport::new("/pkg".to_string());
        check_problem_yaml_fields(&mut report, &"/pkg/problem.yaml".to_string(), &text);
        assert!(yaml_doc_of(&parse_yaml(&text).unwrap()).is_some());
        assert!(report.issues.is_empty(), "{id}: {:?}", report.issues.len());
    }
}

#[test]
fn parsed_values_are_listed_breadth_first() {
    let ns = parse_yaml("a: !t [1, {b: x}]").unwrap();
    assert_eq!(ns.len(), 6);
    assert!(matches!(&ns[0], ParsedNode::Mapping(k) if k == &vec!["a".to_string()]));
    assert!(matches!(ns[1], ParsedNode::Tagged));
    assert!(matches!(ns[2], ParsedNode::Sequence(2)));
    assert!(matches!(ns[3], ParsedNode::Number));
    assert!(matches!(&ns[4], ParsedNode::Mapping(k) if k == &vec!["b".to_string()]));
    assert!(matches!(&ns[5], ParsedNode::Text(t) if t == "x"));
}

fn positions(node: &YamlNode) -> Vec<usize> {
    match node {
        YamlNode::Mapping(e) => e.iter().map(|(_, p)| *p).collect(),
        YamlNode::Sequence(items) => items.clone(),
        YamlNode::Scalar => Vec::new(),
    }
}

#[test]
fn laid_out_nodes_look_through_tags() {
    let ns = vec![
        ParsedNode::Mapping(vec!["a".to_string()]),
        ParsedNode::Tagged,
        ParsedNode::Sequence(2),
        ParsedNode::Number,
        ParsedNode::Mapping(vec!["b".to_string()]),
        ParsedNode::Text("x".to_string()),
    ];
    let doc = yaml_doc_of(&ns).unwrap();
    assert_eq!(doc.nodes.len(), 6);
    assert!(matches!(&doc.nodes[0], YamlNode::Mapping(e) if matches!(&e[0], (YamlKey::Text(k), 1) if k == "a")));
    assert!(matches!(doc.nodes[1], YamlNode::Sequence(_)));
    assert_eq!(positions(&doc.nodes[1]), vec![3, 4]);
    assert_eq!(positions(&doc.nodes[2]), vec![3, 4]);
    assert!(matches!(doc.nodes[3], YamlNode::Scalar));
    assert_eq!(positions(&doc.nodes[4]), vec![5]);
    assert!(matches!(doc.nodes[5], YamlNode::Scalar));
}

#[test]
fn values_that_form_no_breadth_first_tree_are_refused() {
    assert!(yaml_doc_of(&vec![]).is_none());
    assert!(yaml_doc_of(&vec![ParsedNode::Null, ParsedNode::Sequence(1)]).is_none());
    assert!(yaml_doc_of(&vec![ParsedNode::Sequence(2), ParsedNode::Null]).is_none());
    assert!(yaml_doc_of(&vec![ParsedNode::Null, ParsedNode::Null]).is_none());
}
