use gh_stack::util::confirmation_prompt;
use gh_stack::util::decision_prompt;
use gh_stack::util::is_confirmed;
use gh_stack::util::read_answer;
use gh_stack::util::Answer;

#[test]
fn prompt_says_how_to_answer() {
    assert_eq!(confirmation_prompt("Going to push."), "Going to push. Type 'yes' to continue");
    assert_eq!(confirmation_prompt(""), " Type 'yes' to continue");
}

#[test]
fn decision_prompt_names_both_answers() {
    assert_eq!(decision_prompt("Push?"), "Push? Type 'yes' to continue or 'no' to stop");
}

#[test]
fn only_yes_confirms() {
    assert!(is_confirmed("yes"));
    assert!(!is_confirmed("Yes"));
    assert!(!is_confirmed("yes "));
    assert!(!is_confirmed("y"));
    assert!(!is_confirmed(""));
    assert!(!is_confirmed("no"));
}

#[test]
fn answers_are_taken_by_the_letter() {
    assert_eq!(read_answer("yes"), Answer::Yes);
    assert_eq!(read_answer("no"), Answer::No);
    assert_eq!(read_answer("NO"), Answer::Unclear);
    assert_eq!(read_answer("maybe"), Answer::Unclear);
    assert_eq!(read_answer(""), Answer::Unclear);
}
