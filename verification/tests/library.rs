use demokit::animals::{Animal, Cat, Dog};
use demokit::counters::{cell_example, refcell_example, CellCounter, RefCellCounter};
use demokit::lists::example_recursive;
use demokit::patterns::{ex_guards_bindings_ranges, ex_match_basics};
use demokit::sequences::{is_sorted_unique, sorted_unique, sum_bytes};
use demokit::text::{needs_owned, normalize_whitespace};
use demokit::vecs::{bump_all, into_even_only, sum};
use demokit::workloads::{compute, heavy};
use demokit::cmds::{run_cmds, Cmd};

#[test]
fn cell_counter_ticks_twice() {
    assert_eq!(cell_example(), 2);
}

#[test]
fn cell_counter_manual() {
    let mut c = CellCounter::new();
    assert_eq!(c.get(), 0);
    c.tick();
    c.tick();
    c.tick();
    assert_eq!(c.get(), 3);
}

#[test]
fn refcell_counter_history() {
    let (last, all) = refcell_example();
    assert_eq!(last, 3);
    assert_eq!(all, vec![1, 2, 3]);
}

#[test]
fn refcell_counter_empty_last_is_zero() {
    let c = RefCellCounter::new();
    assert_eq!(c.last(), 0);
    assert_eq!(c.all(), Vec::<u32>::new());
}

#[test]
fn normalize_rewrites_on_tab() {
    let a = normalize_whitespace("hello\tworld");
    assert_eq!(a, "hello world");
}

#[test]
fn normalize_keeps_plain_text() {
    let b = normalize_whitespace("no-tabs-here");
    assert_eq!(b, "no-tabs-here");
}

#[test]
fn normalize_rewrites_on_newlines() {
    let c = normalize_whitespace("a\nb\nc");
    assert_eq!(c, "a b c");
}

#[test]
fn normalize_keeps_double_spaces_without_break() {
    assert_eq!(normalize_whitespace("double  space"), "double  space");
}

#[test]
fn normalize_drops_edges_and_collapses_runs() {
    assert_eq!(normalize_whitespace(" \t leading  and trailing \n "), "leading and trailing");
}

#[test]
fn normalize_all_whitespace_becomes_empty() {
    assert_eq!(normalize_whitespace("\t \n"), "");
}

#[test]
fn needs_owned_appends_bang() {
    assert_eq!(needs_owned("hi"), "hi!");
    assert_eq!(needs_owned("yo"), "yo!");
    assert_eq!(needs_owned(""), "!");
}

#[test]
fn sorted_unique_keeps_sorted_input() {
    assert!(is_sorted_unique(&[1, 3, 5]));
    assert_eq!(sorted_unique(&[1, 3, 5]), vec![1, 3, 5]);
}

#[test]
fn sorted_unique_sorts_and_dedups() {
    assert!(!is_sorted_unique(&[3, 1, 3, 2]));
    assert_eq!(sorted_unique(&[3, 1, 3, 2]), vec![1, 2, 3]);
}

#[test]
fn sorted_unique_empty() {
    assert!(is_sorted_unique(&[]));
    assert_eq!(sorted_unique(&[]), Vec::<i64>::new());
}

#[test]
fn sorted_unique_equal_elements() {
    assert!(!is_sorted_unique(&[7, 7]));
    assert_eq!(sorted_unique(&[7, 7]), vec![7]);
}

#[test]
fn sum_bytes_examples() {
    assert_eq!(sum_bytes(&[1u8, 2, 3]), 6);
    let v = vec![4u8, 5, 6];
    assert_eq!(sum_bytes(&v), 15);
    assert_eq!(sum_bytes(&[]), 0);
    assert_eq!(sum_bytes(&[255u8, 255, 255, 255]), 1020);
}

#[test]
fn sum_of_slice() {
    assert_eq!(sum(&[1, 2, 3, 4, 5]), 15);
    assert_eq!(sum(&[]), 0);
    assert_eq!(sum(&[-2, 1, -1]), -2);
}

#[test]
fn bump_all_adds_one_each() {
    let mut v = vec![1, 2, 3, 4, 5];
    bump_all(&mut v);
    assert_eq!(v, vec![2, 3, 4, 5, 6]);
}

#[test]
fn into_even_only_keeps_evens() {
    assert_eq!(into_even_only(vec![1, 2, 3, 4, 5]), vec![2, 4]);
    assert_eq!(into_even_only(vec![1, 3, 5]), Vec::<i32>::new());
    assert_eq!(into_even_only(vec![-4, -3, 0]), vec![-4, 0]);
}

#[test]
fn match_basics_buckets() {
    assert_eq!(ex_match_basics(0), "zero");
    assert_eq!(ex_match_basics(1), "one or two");
    assert_eq!(ex_match_basics(2), "one or two");
    assert_eq!(ex_match_basics(4), "three to nine (inclusive)");
    assert_eq!(ex_match_basics(9), "three to nine (inclusive)");
    assert_eq!(ex_match_basics(10), "something else");
    assert_eq!(ex_match_basics(-1), "something else");
}

#[test]
fn guards_and_ranges_buckets() {
    assert_eq!(ex_guards_bindings_ranges(2), "small or near zero");
    assert_eq!(ex_guards_bindings_ranges(-3), "small or near zero");
    assert_eq!(ex_guards_bindings_ranges(8), "even by guard");
    assert_eq!(ex_guards_bindings_ranges(-8), "even by guard");
    assert_eq!(ex_guards_bindings_ranges(7), "other");
}

#[test]
fn animals_speak_in_order() {
    let sounds = demokit::animals::example_trait_objects();
    assert_eq!(sounds, vec!["Woof!", "Meow!"]);
}

#[test]
fn dog_and_cat_sounds() {
    assert_eq!(Dog.speak(), "Woof!");
    assert_eq!(Cat.speak(), "Meow!");
}

#[test]
fn recursive_list_head() {
    assert_eq!(example_recursive(), Some(1));
}

#[test]
fn heavy_fixed_sum() {
    assert_eq!(heavy(), 1_249_975_000);
}

#[test]
fn compute_triangular_sums() {
    assert_eq!(compute(0), 0);
    assert_eq!(compute(1), 0);
    assert_eq!(compute(5), 10);
    assert_eq!(compute(100_000), 4_999_950_000);
}

#[test]
fn char_frequency_counts_each() {
    let freq = demokit::tally::char_frequency("ababa");
    assert_eq!(freq, vec![('a', 3), ('b', 2)]);
}

#[test]
fn char_frequency_empty_text() {
    assert_eq!(demokit::tally::char_frequency(""), Vec::<(char, usize)>::new());
}

#[test]
fn csv_joins_with_commas() {
    let parts = vec![
        "name".to_string(),
        "1 + 2".to_string(),
        "some::path::<T>".to_string(),
        "\"literal\"".to_string(),
    ];
    assert_eq!(demokit::text::csv(&parts), "name,1 + 2,some::path::<T>,\"literal\"");
}

#[test]
fn csv_of_nothing_is_empty() {
    assert_eq!(demokit::text::csv(&Vec::new()), "");
    assert_eq!(demokit::text::csv(&vec!["a".to_string()]), "a");
}

#[test]
fn counter_yields_one_to_five() {
    assert_eq!(demokit::iterating::example_custom_iterator(), vec![1, 2, 3, 4, 5]);
}

#[test]
fn counter_stops_after_five() {
    let mut c = demokit::iterating::Counter::new();
    assert_eq!(c.next(), Some(1));
    for _ in 0..4 {
        c.next();
    }
    assert_eq!(c.next(), None);
    assert_eq!(c.next(), None);
}

#[test]
fn binary_search_finds_and_places() {
    let v = vec![1i64, 2, 3, 4, 5];
    assert_eq!(demokit::sequences::binary_search(&v, 4), Ok(3));
    assert_eq!(demokit::sequences::binary_search(&[1, 3, 5], 4), Err(2));
    assert_eq!(demokit::sequences::binary_search(&[], 7), Err(0));
    assert_eq!(demokit::sequences::binary_search(&[1, 3, 5], 0), Err(0));
    assert_eq!(demokit::sequences::binary_search(&[1, 3, 5], 9), Err(3));
}

#[test]
fn hello_world_greets_by_name() {
    assert_eq!(demokit::text::hello_world("User"), "Hello from User!");
}

#[test]
fn next_id_counts_up_from_one() {
    let a = demokit::counters::next_id(None);
    let b = demokit::counters::next_id(Some(a));
    assert_eq!((a, b), (1, 2));
}

#[test]
fn even_increment_proposals() {
    assert_eq!(demokit::workloads::propose_even_increment(10), Some(12));
    assert_eq!(demokit::workloads::propose_even_increment(11), None);
    assert_eq!(demokit::workloads::propose_even_increment(0), Some(2));
}

#[test]
fn adder_closure_adds() {
    let add10 = demokit::closures::make_adder(10);
    assert_eq!(add10(5), 15);
    assert_eq!(demokit::closures::example_returning_closure(10, 5), 15);
}

#[test]
fn command_list_folds_from_zero() {
    let prog = vec![Cmd::Add(3), Cmd::Add(4), Cmd::Sub(1), Cmd::Add(4)];
    assert_eq!(run_cmds(&prog), 10);
    assert_eq!(run_cmds(&Vec::new()), 0);
    assert_eq!(run_cmds(&vec![Cmd::Sub(5)]), -5);
}
