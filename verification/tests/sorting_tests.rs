use acterminal::process_table::{process_display_order, ProcessSortField};
use acterminal::sorting::{stable_sort_indices, SortKey};

fn nums(v: &[u64]) -> Vec<SortKey> {
    v.iter().map(|x| SortKey::Num(*x)).collect()
}

fn texts(v: &[&str]) -> Vec<SortKey> {
    v.iter().map(|s| SortKey::Text(s.chars().collect())).collect()
}

#[test]
fn ascending_is_stable() {
    assert_eq!(stable_sort_indices(&nums(&[3, 1, 2, 1, 3]), false), vec![1, 3, 2, 0, 4]);
}

#[test]
fn descending_keeps_ties_in_order() {
    assert_eq!(stable_sort_indices(&nums(&[3, 1, 2, 1, 3]), true), vec![0, 4, 2, 1, 3]);
    let v = vec![5u64, 9, 5, 0];
    let mut idx: Vec<usize> = (0..v.len()).collect();
    idx.sort_by(|a, b| v[*a].cmp(&v[*b]).reverse());
    assert_eq!(stable_sort_indices(&nums(&v), true), idx);
}

#[test]
fn texts_sort_like_strings() {
    let names = ["systemd", "bash", "Xorg", "bash", "b", "", "zsh"];
    let mut idx: Vec<usize> = (0..names.len()).collect();
    idx.sort_by(|a, b| names[*a].cmp(names[*b]));
    assert_eq!(stable_sort_indices(&texts(&names), false), idx);
    assert_eq!(stable_sort_indices(&texts(&[]), false), Vec::<usize>::new());
}

#[test]
fn process_rows_are_capped() {
    let keys: Vec<u64> = (0..250u64).map(|i| i % 7).collect();
    let order = process_display_order(&nums(&keys), true);
    assert_eq!(order.len(), 200);
    assert_eq!(keys[order[0]], 6);
    for w in order.windows(2) {
        assert!(keys[w[0]] > keys[w[1]] || (keys[w[0]] == keys[w[1]] && w[0] < w[1]));
    }
    assert_eq!(process_display_order(&nums(&[2, 1]), false), vec![1, 0]);
}

#[test]
fn sort_fields_from_columns() {
    assert_eq!(ProcessSortField::from_column(0), ProcessSortField::Pid);
    assert_eq!(ProcessSortField::from_column(1), ProcessSortField::Name);
    assert_eq!(ProcessSortField::from_column(2), ProcessSortField::Cpu);
    assert_eq!(ProcessSortField::from_column(3), ProcessSortField::Memory);
    assert_eq!(ProcessSortField::from_column(9), ProcessSortField::Cpu);
    assert_eq!(ProcessSortField::default(), ProcessSortField::Cpu);
}

#[test]
fn process_table_shows_top_of_order() {
    let keys: Vec<u64> = (0..500u64).map(|i| (i * 7919) % 1000).collect();
    let order = process_display_order(&nums(&keys), true);
    let mut expected: Vec<usize> = (0..keys.len()).collect();
    expected.sort_by(|a, b| keys[*b].cmp(&keys[*a]));
    expected.truncate(200);
    assert_eq!(order, expected);
}
