use copilot_switch::propagate::{
    apply_token_plan, candidate_auth_files, candidate_dirs, locate_auth_files, read_active_token,
    token_of_file_text, CandidateFile,
};
use copilot_switch::json::rewrite_credential_text;

fn cf(modified: i64, text: &str) -> CandidateFile {
    CandidateFile { modified, text: text.to_string() }
}

fn direct_file(token: &str) -> String {
    format!(
        "{{\"github-copilot\":{{\"type\":\"oauth\",\"refresh\":\"{t}\",\"access\":\"{t}\",\"expires\":0}}}}",
        t = token
    )
}

fn nested_file(token: &str) -> String {
    format!("{{\"auth\":{{\"github-copilot\":{{\"access\":\"{}\"}}}}}}", token)
}

#[test]
fn rewrite_preserves_unrelated_auth_content() {
    // an existing target file {"auth":{"unrelated":1}} gets the provider
    // entry at the top level and under the pre-existing auth object, while
    // auth.unrelated stays.
    let existing = "{\"auth\":{\"unrelated\":1}}".to_string();
    let out = rewrite_credential_text(&existing, "T", false);
    let v: serde_json::Value = serde_json::from_str(&out).unwrap();
    assert_eq!(v["github-copilot"]["type"], "oauth");
    assert_eq!(v["github-copilot"]["access"], "T");
    assert_eq!(v["github-copilot"]["refresh"], "T");
    assert_eq!(v["github-copilot"]["expires"], 0);
    assert_eq!(v["auth"]["github-copilot"]["access"], "T");
    assert_eq!(v["auth"]["unrelated"], 1);
}

#[test]
fn rewrite_does_not_invent_auth_wrapper() {
    let existing = "{\"other\":true}".to_string();
    let out = rewrite_credential_text(&existing, "T", false);
    let v: serde_json::Value = serde_json::from_str(&out).unwrap();
    assert_eq!(v["github-copilot"]["access"], "T");
    assert_eq!(v["other"], true);
    assert!(v.get("auth").is_none());
}

#[test]
fn rewrite_twice_is_byte_identical() {
    let existing = "{\"auth\":{\"unrelated\":1},\"keep\":\"x\"}".to_string();
    let once = rewrite_credential_text(&existing, "tok", false);
    let twice = rewrite_credential_text(&once, "tok", false);
    assert_eq!(once, twice);
    // the same holds from an unparsable start
    let garbled = "not json at all".to_string();
    let once = rewrite_credential_text(&garbled, "tok", false);
    let twice = rewrite_credential_text(&once, "tok", false);
    assert_eq!(once, twice);
}

#[test]
fn plan_writes_only_existing_files() {
    let files = vec![None, Some("{}".to_string()), None, Some("{\"a\":1}".to_string())];
    let plan = apply_token_plan(&files, "tok");
    assert_eq!(plan.len(), 4);
    assert!(plan[0].is_none());
    assert!(plan[1].is_some());
    assert!(plan[2].is_none());
    assert!(plan[3].is_some());
    let v: serde_json::Value = serde_json::from_str(plan[3].as_ref().unwrap()).unwrap();
    assert_eq!(v["a"], 1);
    assert_eq!(v["github-copilot"]["access"], "tok");
}

#[test]
fn plan_seeds_exactly_the_first_candidate_when_none_exists() {
    let files: Vec<Option<String>> = vec![None, None, None];
    let plan = apply_token_plan(&files, "tok");
    assert_eq!(plan.len(), 3);
    assert!(plan[0].is_some());
    assert!(plan[1].is_none());
    assert!(plan[2].is_none());
    // the seeded file carries the entry both at top level and under auth
    let v: serde_json::Value = serde_json::from_str(plan[0].as_ref().unwrap()).unwrap();
    assert_eq!(v["github-copilot"]["access"], "tok");
    assert_eq!(v["auth"]["github-copilot"]["access"], "tok");
}

#[test]
fn plan_over_no_candidates_is_empty() {
    let files: Vec<Option<String>> = vec![];
    let plan = apply_token_plan(&files, "tok");
    assert_eq!(plan.len(), 0);
}

#[test]
fn active_token_comes_from_latest_file() {
    let files = vec![cf(100, &direct_file("older")), cf(200, &direct_file("newer"))];
    assert_eq!(read_active_token(&files), Some("newer".to_string()));
    let files = vec![cf(200, &direct_file("newer")), cf(100, &direct_file("older"))];
    assert_eq!(read_active_token(&files), Some("newer".to_string()));
}

#[test]
fn unparsable_and_unrecognized_files_are_skipped() {
    let files = vec![
        cf(900, "###"),
        cf(500, "{\"nothing\":1}"),
        cf(100, &nested_file("deep")),
    ];
    assert_eq!(read_active_token(&files), Some("deep".to_string()));
    let files = vec![cf(900, "###"), cf(500, "{\"nothing\":1}")];
    assert_eq!(read_active_token(&files), None);
    let files: Vec<CandidateFile> = vec![];
    assert_eq!(read_active_token(&files), None);
}

#[test]
fn direct_shape_wins_over_nested_shape() {
    let text = "{\"github-copilot\":{\"access\":\"top\"},\"auth\":{\"github-copilot\":{\"access\":\"deep\"}}}"
        .to_string();
    assert_eq!(token_of_file_text(&text), Some("top".to_string()));
    assert_eq!(token_of_file_text(&nested_file("deep")), Some("deep".to_string()));
    assert_eq!(token_of_file_text(&"{}".to_string()), None);
}

#[test]
fn candidate_paths_follow_the_priority_order() {
    let dirs = candidate_dirs(&Some("/data".to_string()), &Some("/home/u".to_string()));
    assert_eq!(
        dirs,
        vec![
            "/data/opencode".to_string(),
            "/home/u/.local/share/opencode".to_string(),
            "/home/u/.config/opencode".to_string(),
        ]
    );
    let files = candidate_auth_files(&None, &Some("/home/u".to_string()));
    assert_eq!(
        files,
        vec![
            "/home/u/.local/share/opencode/auth.json".to_string(),
            "/home/u/.config/opencode/auth.json".to_string(),
        ]
    );
    assert_eq!(candidate_auth_files(&None, &None).len(), 0);
}

#[test]
fn locating_files_on_this_machine_yields_at_most_three() {
    let files = locate_auth_files();
    assert!(files.len() <= 3);
    for f in &files {
        assert!(f.ends_with("/auth.json"));
    }
}
