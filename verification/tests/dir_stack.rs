use rurt::dir_stack::DirStack;

fn p(s: &str) -> Vec<u8> {
    s.as_bytes().to_vec()
}

#[test]
fn empty_stack_goes_nowhere() {
    let mut stack = DirStack::new();
    assert_eq!(stack.back(p("/a")), None);
    assert_eq!(stack.forward(), None);
    assert_eq!(stack.len(), 0);
}

#[test]
fn push_skips_what_is_on_top() {
    let mut stack = DirStack::default();
    stack.push(p("/a"));
    stack.push(p("/a"));
    assert_eq!(stack.len(), 1);
    stack.push(p("/b"));
    assert_eq!(stack.len(), 2);
    assert_eq!(stack.current(), 0);
}

#[test]
fn back_from_the_top_records_where_we_were() {
    let mut stack = DirStack::new();
    stack.push(p("/a"));
    stack.push(p("/b"));
    // leaving /c: the stack becomes /c, /b, /a and we land on /b
    assert_eq!(stack.back(p("/c")), Some(p("/b")));
    assert_eq!(stack.len(), 3);
    assert_eq!(stack.current(), 1);
    assert_eq!(stack.back(p("/b")), Some(p("/a")));
    // at the bottom: stays there
    assert_eq!(stack.back(p("/a")), Some(p("/a")));
    assert_eq!(stack.current(), 2);
    assert_eq!(stack.forward(), Some(p("/b")));
    assert_eq!(stack.forward(), Some(p("/c")));
    assert_eq!(stack.forward(), Some(p("/c")));
    assert_eq!(stack.current(), 0);
}

#[test]
fn back_keeps_first_occurrences_only() {
    let mut stack = DirStack::new();
    stack.push(p("/a"));
    stack.push(p("/b"));
    stack.push(p("/a"));
    // leaving /b: /b, /a, /b, /a becomes /b, /a
    assert_eq!(stack.back(p("/b")), Some(p("/a")));
    assert_eq!(stack.len(), 2);
}
