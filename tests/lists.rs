use deet::linked_list::LinkedList;

fn contents(list: &LinkedList<u32>) -> Vec<u32> {
    let mut it = list.iter();
    let mut out = Vec::new();
    while let Some(v) = it.next() {
        out.push(v);
    }
    out
}

#[test]
fn new_list_is_empty() {
    let list: LinkedList<u32> = LinkedList::new();
    assert!(list.is_empty());
    assert_eq!(list.get_size(), 0);
}

#[test]
fn push_and_pop_front() {
    let mut list: LinkedList<u32> = LinkedList::new();
    for i in 1..12 {
        list.push_front(i);
    }
    assert_eq!(list.get_size(), 11);
    assert_eq!(contents(&list), vec![11, 10, 9, 8, 7, 6, 5, 4, 3, 2, 1]);
    assert_eq!(list.pop_front(), Some(11));
    assert_eq!(list.get_size(), 10);
    assert!(!list.is_empty());
}

#[test]
fn pop_from_empty_list() {
    let mut list: LinkedList<u32> = LinkedList::new();
    assert_eq!(list.pop_front(), None);
    assert_eq!(list.get_size(), 0);
}

#[test]
fn clone_and_compare() {
    let mut list: LinkedList<u32> = LinkedList::new();
    for i in 1..5 {
        list.push_front(i);
    }
    let mut list1 = list.clone();
    assert!(list == list1);
    list1.pop_front();
    list1.push_front(99);
    assert!(list != list1);
    assert_eq!(contents(&list1), vec![99, 3, 2, 1]);
    assert_eq!(contents(&list), vec![4, 3, 2, 1]);
    let list2 = list1.clone();
    assert!(list1 == list2);
    let mut shorter = list2.clone();
    shorter.pop_front();
    assert!(shorter != list2);
}

#[test]
fn owning_iterator_takes_elements_in_order() {
    let mut list: LinkedList<String> = LinkedList::new();
    list.push_front("c".to_string());
    list.push_front("b".to_string());
    list.push_front("a".to_string());
    let mut it = list.into_iter();
    assert_eq!(it.next(), Some("a".to_string()));
    assert_eq!(it.next(), Some("b".to_string()));
    assert_eq!(it.next(), Some("c".to_string()));
    assert_eq!(it.next(), None);
}
