use gh_stack::api::pull_request::PullRequest;
use gh_stack::api::pull_request::PullRequestRef;
use gh_stack::api::pull_request::PullRequestStatus;
use gh_stack::graph::FlatDep;
use gh_stack::persist::append_block;
use gh_stack::persist::descriptions;
use gh_stack::persist::matcher;
use gh_stack::persist::replace_pattern;
use gh_stack::persist::PersistError;
use gh_stack::persist::safe_replace;
use gh_stack::persist::shield;
use std::rc::Rc;

fn described(number: usize, body: &str) -> Rc<PullRequest> {
    Rc::new(PullRequest::new(
        number,
        number,
        PullRequestRef::new("", "head", ""),
        PullRequestRef::new("", "base", ""),
        "",
        "",
        body,
        PullRequestStatus::Open,
        false,
    ))
}

#[test]
fn shield_puts_the_table_between_the_markers() {
    assert_eq!(shield("TABLE"), "\n<!---GHSTACKOPEN-->\nTABLE\n<!---GHSTACKCLOSE-->\n");
}

#[test]
fn matcher_escapes_the_markers() {
    assert_eq!(matcher(), "(?s)<!\\-\\-\\-GHSTACKOPEN\\-\\->.*<!\\-\\-\\-GHSTACKCLOSE\\-\\->");
}

#[test]
fn block_is_appended_to_a_description_without_markers() {
    assert_eq!(append_block("Text.", "\nBLOCK\n"), "Text.\nBLOCK\n");
    assert_eq!(
        safe_replace("Text.", "TABLE"),
        Ok("Text.\n<!---GHSTACKOPEN-->\nTABLE\n<!---GHSTACKCLOSE-->\n".to_string())
    );
    assert_eq!(
        safe_replace("", ""),
        Ok("\n<!---GHSTACKOPEN-->\n\n<!---GHSTACKCLOSE-->\n".to_string())
    );
}

#[test]
fn block_replaces_what_stands_between_the_markers() {
    let body = "Before.\n<!---GHSTACKOPEN-->\nold\ntable\n<!---GHSTACKCLOSE-->\nAfter.";
    assert_eq!(
        safe_replace(body, "NEW"),
        Ok("Before.\n\n<!---GHSTACKOPEN-->\nNEW\n<!---GHSTACKCLOSE-->\n\nAfter.".to_string())
    );
}

#[test]
fn replacing_twice_keeps_one_table() {
    let once = safe_replace("Text.", "ONE").unwrap();
    let twice = safe_replace(&once, "TWO").unwrap();
    assert_eq!(twice, "Text.\n\n<!---GHSTACKOPEN-->\nTWO\n<!---GHSTACKCLOSE-->\n\n");
}

#[test]
fn everything_up_to_the_last_closing_marker_is_replaced() {
    let body = "a<!---GHSTACKOPEN-->x<!---GHSTACKCLOSE-->b<!---GHSTACKOPEN-->y<!---GHSTACKCLOSE-->c";
    assert_eq!(
        safe_replace(body, "T"),
        Ok("a\n<!---GHSTACKOPEN-->\nT\n<!---GHSTACKCLOSE-->\nc".to_string())
    );
}

#[test]
fn opening_marker_alone_is_left_as_it_is() {
    let body = "Text <!---GHSTACKOPEN--> and no end";
    assert_eq!(safe_replace(body, "T"), Ok(body.to_string()));
}

#[test]
fn descriptions_follow_the_stack() {
    let first = described(1, "One.");
    let second = described(2, "<!---GHSTACKOPEN-->old<!---GHSTACKCLOSE-->");
    let deps: FlatDep = vec![(first.clone(), None), (second, Some(first))];
    assert_eq!(
        descriptions(&deps, "T"),
        Ok(vec![
            "One.\n<!---GHSTACKOPEN-->\nT\n<!---GHSTACKCLOSE-->\n".to_string(),
            "\n<!---GHSTACKOPEN-->\nT\n<!---GHSTACKCLOSE-->\n".to_string(),
        ])
    );
    let none: FlatDep = Vec::new();
    assert_eq!(descriptions(&none, "T"), Ok(Vec::new()));
}

#[test]
fn references_in_the_table_are_expanded_where_the_markers_are_replaced() {
    // Appended, the table stands as it is.
    assert_eq!(
        safe_replace("Text.", "costs $0"),
        Ok("Text.\n<!---GHSTACKOPEN-->\ncosts $0\n<!---GHSTACKCLOSE-->\n".to_string())
    );
    // In a replacement, `$0` stands for what was matched.
    let body = "<!---GHSTACKOPEN-->old<!---GHSTACKCLOSE-->";
    assert_eq!(
        safe_replace(body, "$0"),
        Ok(format!("\n<!---GHSTACKOPEN-->\n{}\n<!---GHSTACKCLOSE-->\n", body))
    );
}

#[test]
fn markers_are_found_across_lines() {
    let body = "<!---GHSTACKOPEN-->\n\nmany\n\nlines\n<!---GHSTACKCLOSE-->";
    assert_eq!(
        safe_replace(body, "T"),
        Ok("\n<!---GHSTACKOPEN-->\nT\n<!---GHSTACKCLOSE-->\n".to_string())
    );
}

#[test]
fn refused_pattern_is_an_error() {
    assert_eq!(replace_pattern("(", "text", "block"), Err(PersistError::Pattern));
    assert_eq!(replace_pattern("a{3,1}", "text", "block"), Err(PersistError::Pattern));
}

#[test]
fn pattern_is_replaced_wherever_it_matches() {
    assert_eq!(replace_pattern("a+", "baaad a", "o"), Ok("bod o".to_string()));
    assert_eq!(replace_pattern("(b)(a)", "ba", "$2$1"), Ok("ab".to_string()));
    assert_eq!(replace_pattern("x", "text", "block"), Ok("teblockt".to_string()));
    assert_eq!(replace_pattern("z", "text", "block"), Ok("text".to_string()));
}
