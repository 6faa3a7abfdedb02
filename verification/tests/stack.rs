use lanta::stack::Stack;

fn stack_of(items: &[char], focus: Option<char>) -> Stack<char> {
    let mut stack: Stack<char> = Stack::new();
    for item in items {
        stack.push(*item);
    }
    if let Some(wanted) = focus {
        stack.focus(|item| *item == wanted);
    }
    stack
}

fn items(stack: &Stack<char>) -> Vec<char> {
    stack.as_slice().to_vec()
}

#[test]
fn new_stack_is_empty_and_unfocused() {
    let stack: Stack<char> = Stack::new();
    assert_eq!(stack.len(), 0);
    assert!(stack.is_empty());
    assert_eq!(stack.focused(), None);
    assert!(stack.as_slice().is_empty());
}

#[test]
fn push_appends_and_does_not_focus() {
    let mut stack: Stack<char> = Stack::new();
    stack.push('a');
    assert_eq!(stack.focused(), None);
    stack.push('b');
    assert_eq!(stack.focused(), None);
    assert_eq!(items(&stack), vec!['a', 'b']);
    assert_eq!(stack.len(), 2);
    assert!(!stack.is_empty());
}

#[test]
fn push_keeps_the_focus_where_it_is() {
    let mut stack = stack_of(&['a', 'b'], Some('b'));
    stack.push('c');
    assert_eq!(stack.focused(), Some(&'b'));
    assert_eq!(items(&stack), vec!['a', 'b', 'c']);
}

#[test]
fn from_vec_keeps_the_order_and_focuses_nothing() {
    let stack: Stack<char> = Stack::from(vec!['x', 'y', 'z']);
    assert_eq!(items(&stack), vec!['x', 'y', 'z']);
    assert_eq!(stack.focused(), None);
}

#[test]
fn focus_next_three_times_returns_to_the_first() {
    let mut stack = stack_of(&['a', 'b', 'c'], Some('a'));
    assert_eq!(stack.focused(), Some(&'a'));
    stack.focus_next();
    assert_eq!(stack.focused(), Some(&'b'));
    stack.focus_next();
    assert_eq!(stack.focused(), Some(&'c'));
    stack.focus_next();
    assert_eq!(stack.focused(), Some(&'a'));
    assert_eq!(items(&stack), vec!['a', 'b', 'c']);
}

#[test]
fn focus_previous_three_times_returns_to_the_first() {
    let mut stack = stack_of(&['a', 'b', 'c'], Some('a'));
    stack.focus_previous();
    assert_eq!(stack.focused(), Some(&'c'));
    stack.focus_previous();
    assert_eq!(stack.focused(), Some(&'b'));
    stack.focus_previous();
    assert_eq!(stack.focused(), Some(&'a'));
}

#[test]
fn focus_moves_do_nothing_on_empty_and_singleton_stacks() {
    let mut empty: Stack<char> = Stack::new();
    empty.focus_next();
    empty.focus_previous();
    assert_eq!(empty.focused(), None);
    assert_eq!(empty.len(), 0);

    let mut one = stack_of(&['a'], Some('a'));
    one.focus_next();
    assert_eq!(one.focused(), Some(&'a'));
    one.focus_previous();
    assert_eq!(one.focused(), Some(&'a'));
    assert_eq!(items(&one), vec!['a']);
}

#[test]
fn focus_moves_do_nothing_without_a_focus() {
    let mut stack = stack_of(&['a', 'b'], None);
    stack.focus_next();
    assert_eq!(stack.focused(), None);
    stack.focus_previous();
    assert_eq!(stack.focused(), None);
    stack.shuffle_next();
    stack.shuffle_previous();
    assert_eq!(items(&stack), vec!['a', 'b']);
}

#[test]
fn remove_focused_on_a_singleton_leaves_the_stack_empty() {
    let mut stack = stack_of(&['a'], Some('a'));
    assert_eq!(stack.remove_focused(), Some('a'));
    assert!(stack.is_empty());
    assert_eq!(stack.focused(), None);
    assert_eq!(stack.remove_focused(), None);
}

#[test]
fn remove_focused_without_a_focus_removes_nothing() {
    let mut stack = stack_of(&['a'], None);
    assert_eq!(stack.remove_focused(), None);
    assert_eq!(items(&stack), vec!['a']);
}

#[test]
fn remove_focused_moves_the_focus_to_the_following_item() {
    let mut stack = stack_of(&['a', 'b', 'c'], Some('b'));
    assert_eq!(stack.remove_focused(), Some('b'));
    assert_eq!(items(&stack), vec!['a', 'c']);
    assert_eq!(stack.focused(), Some(&'c'));
}

#[test]
fn remove_focused_of_the_last_item_moves_the_focus_back() {
    let mut stack = stack_of(&['a', 'b', 'c'], Some('c'));
    assert_eq!(stack.remove_focused(), Some('c'));
    assert_eq!(items(&stack), vec!['a', 'b']);
    assert_eq!(stack.focused(), Some(&'b'));
}

#[test]
fn shuffle_next_moves_the_focused_item_one_place_on() {
    let mut stack = stack_of(&['a', 'b', 'c'], Some('a'));
    stack.shuffle_next();
    assert_eq!(items(&stack), vec!['b', 'a', 'c']);
    assert_eq!(stack.focused(), Some(&'a'));
}

#[test]
fn shuffle_next_of_the_last_item_exchanges_it_with_the_first() {
    let mut stack = stack_of(&['a', 'b', 'c'], Some('c'));
    stack.shuffle_next();
    assert_eq!(items(&stack), vec!['c', 'b', 'a']);
    assert_eq!(stack.focused(), Some(&'c'));
}

#[test]
fn shuffle_previous_moves_the_focused_item_one_place_back() {
    let mut stack = stack_of(&['a', 'b', 'c'], Some('c'));
    stack.shuffle_previous();
    assert_eq!(items(&stack), vec!['a', 'c', 'b']);
    assert_eq!(stack.focused(), Some(&'c'));
}

#[test]
fn shuffle_previous_of_the_first_item_exchanges_it_with_the_last() {
    let mut stack = stack_of(&['a', 'b', 'c'], Some('a'));
    stack.shuffle_previous();
    assert_eq!(items(&stack), vec!['c', 'b', 'a']);
    assert_eq!(stack.focused(), Some(&'a'));
}

#[test]
fn shuffle_previous_undoes_shuffle_next() {
    let mut stack = stack_of(&['a', 'b', 'c', 'd'], Some('b'));
    stack.shuffle_next();
    assert_eq!(items(&stack), vec!['a', 'c', 'b', 'd']);
    stack.shuffle_previous();
    assert_eq!(items(&stack), vec!['a', 'b', 'c', 'd']);
    assert_eq!(stack.focused(), Some(&'b'));
}

#[test]
fn shuffle_of_two_items_exchanges_them() {
    let mut stack = stack_of(&['a', 'b'], Some('b'));
    stack.shuffle_next();
    assert_eq!(items(&stack), vec!['b', 'a']);
    assert_eq!(stack.focused(), Some(&'b'));
    stack.shuffle_previous();
    assert_eq!(items(&stack), vec!['a', 'b']);
    assert_eq!(stack.focused(), Some(&'b'));
}

#[test]
fn shuffle_on_a_singleton_changes_nothing() {
    let mut stack = stack_of(&['a'], Some('a'));
    stack.shuffle_next();
    stack.shuffle_previous();
    assert_eq!(items(&stack), vec!['a']);
    assert_eq!(stack.focused(), Some(&'a'));
}

#[test]
fn removing_an_item_before_the_focus_keeps_the_focused_item() {
    let mut stack = stack_of(&['a', 'b', 'c'], Some('c'));
    assert_eq!(stack.remove(|item| *item == 'a'), 'a');
    assert_eq!(items(&stack), vec!['b', 'c']);
    assert_eq!(stack.focused(), Some(&'c'));
}

#[test]
fn removing_an_item_after_the_focus_keeps_the_focused_item() {
    let mut stack = stack_of(&['a', 'b', 'c'], Some('a'));
    assert_eq!(stack.remove(|item| *item == 'c'), 'c');
    assert_eq!(items(&stack), vec!['a', 'b']);
    assert_eq!(stack.focused(), Some(&'a'));
}

#[test]
fn removing_the_focused_item_by_predicate_focuses_the_following_one() {
    let mut stack = stack_of(&['a', 'b', 'c'], Some('b'));
    assert_eq!(stack.remove(|item| *item == 'b'), 'b');
    assert_eq!(items(&stack), vec!['a', 'c']);
    assert_eq!(stack.focused(), Some(&'c'));
}

#[test]
fn removing_the_focused_last_item_by_predicate_focuses_the_one_before() {
    let mut stack = stack_of(&['a', 'b', 'c'], Some('c'));
    assert_eq!(stack.remove(|item| *item == 'c'), 'c');
    assert_eq!(items(&stack), vec!['a', 'b']);
    assert_eq!(stack.focused(), Some(&'b'));
}

#[test]
fn remove_takes_the_first_match_only() {
    let mut stack = stack_of(&['a', 'b', 'a', 'b'], None);
    assert_eq!(stack.remove(|item| *item == 'b'), 'b');
    assert_eq!(items(&stack), vec!['a', 'a', 'b']);
}

#[test]
fn remove_without_a_focus_leaves_the_stack_unfocused() {
    let mut stack = stack_of(&['a', 'b'], None);
    assert_eq!(stack.remove(|item| *item == 'a'), 'a');
    assert_eq!(stack.focused(), None);
}

#[test]
fn try_remove_returns_none_where_nothing_matches() {
    let mut stack = stack_of(&['a', 'b'], Some('b'));
    assert_eq!(stack.try_remove(|item| *item == 'z'), None);
    assert_eq!(items(&stack), vec!['a', 'b']);
    assert_eq!(stack.focused(), Some(&'b'));
    assert_eq!(stack.try_remove(|item| *item == 'a'), Some('a'));
    assert_eq!(items(&stack), vec!['b']);
    assert_eq!(stack.focused(), Some(&'b'));
}

#[test]
fn focus_takes_the_first_match() {
    let mut stack = stack_of(&['a', 'b', 'b'], None);
    stack.focus(|item| *item == 'b');
    assert_eq!(stack.focused(), Some(&'b'));
    stack.focus_previous();
    assert_eq!(stack.focused(), Some(&'a'));
}

#[test]
fn focus_without_a_match_changes_nothing() {
    let mut stack = stack_of(&['a', 'b'], Some('a'));
    stack.focus(|item| *item == 'z');
    assert_eq!(stack.focused(), Some(&'a'));
    let mut unfocused = stack_of(&['a', 'b'], None);
    unfocused.focus(|item| *item == 'z');
    assert_eq!(unfocused.focused(), None);
}

#[test]
fn position_finds_the_first_match() {
    let stack = stack_of(&['a', 'b', 'b'], None);
    assert_eq!(stack.position(|item| *item == 'b'), Some(1));
    assert_eq!(stack.position(|item| *item == 'a'), Some(0));
    assert_eq!(stack.position(|item| *item == 'z'), None);
}

#[test]
fn iter_can_be_walked_again_and_again() {
    let mut stack = stack_of(&['a', 'b', 'c'], Some('a'));
    stack.shuffle_next();
    let first: Vec<char> = stack.iter().copied().collect();
    let second: Vec<char> = stack.iter().copied().collect();
    assert_eq!(first, vec!['b', 'a', 'c']);
    assert_eq!(first, second);
    assert_eq!(stack.len(), 3);
    assert_eq!(stack.focused(), Some(&'a'));
}

#[test]
fn iter_of_an_empty_stack_yields_nothing() {
    let stack: Stack<char> = Stack::new();
    assert_eq!(stack.iter().next(), None);
    assert_eq!(stack.iter().len(), 0);
}

#[test]
fn a_focused_stack_stays_focused_until_it_is_empty() {
    let mut stack = stack_of(&['a', 'b', 'c'], Some('b'));
    assert_eq!(stack.remove_focused(), Some('b'));
    assert!(stack.focused().is_some());
    assert_eq!(stack.remove_focused(), Some('c'));
    assert!(stack.focused().is_some());
    assert_eq!(stack.remove_focused(), Some('a'));
    assert_eq!(stack.focused(), None);
    assert!(stack.is_empty());
}
