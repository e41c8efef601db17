use sitegen::inheritance::endless_chain;

#[test]
fn no_links_no_endless_chain() {
    assert_eq!(endless_chain(&Vec::new()), None);
    assert_eq!(endless_chain(&vec![None, None, None]), None);
}

#[test]
fn chains_that_end_are_accepted() {
    assert_eq!(endless_chain(&vec![Some(1), Some(2), Some(3), None]), None);
    assert_eq!(endless_chain(&vec![None, Some(0), Some(0), Some(2), Some(3)]), None);
    assert_eq!(endless_chain(&vec![Some(4), Some(0), Some(1), Some(2), None]), None);
}

#[test]
fn link_to_itself_never_ends() {
    assert_eq!(endless_chain(&vec![Some(0)]), Some(0));
    assert_eq!(endless_chain(&vec![None, Some(1)]), Some(1));
}

#[test]
fn first_template_on_or_before_a_circle_is_found() {
    assert_eq!(endless_chain(&vec![None, Some(2), Some(2)]), Some(1));
    assert_eq!(endless_chain(&vec![Some(1), Some(2), Some(0), Some(1)]), Some(0));
    assert_eq!(endless_chain(&vec![None, Some(0), Some(3), Some(2), Some(1)]), Some(2));
    assert_eq!(endless_chain(&vec![Some(1), None, None, Some(4), Some(5), Some(3)]), Some(3));
}

#[test]
fn link_outside_the_set_ends_the_chain() {
    assert_eq!(endless_chain(&vec![Some(7)]), None);
    assert_eq!(endless_chain(&vec![Some(1), Some(2)]), None);
}
