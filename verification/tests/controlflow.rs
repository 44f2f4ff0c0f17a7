use exercises::controlflow::{count, double, sum};

#[test]
fn sum_of_one_to_hundred_is_5050() {
    assert_eq!(sum(), 5050);
}

#[test]
fn doubling_from_one_past_hundred_takes_seven_steps() {
    assert_eq!(double(), 7);
}

#[test]
fn count_repeats_hello_five_times_with_blank_lines() {
    let lines = count("hello".to_string());
    assert_eq!(lines.len(), 10);
    for (i, line) in lines.iter().enumerate() {
        if i % 2 == 0 {
            assert_eq!(line, "hello");
        } else {
            assert_eq!(line, "");
        }
    }
}

#[test]
fn count_of_empty_string() {
    let lines = count(String::new());
    assert_eq!(lines.len(), 10);
    for line in &lines {
        assert_eq!(line, "");
    }
}
