use std::collections::HashSet;
use yellowstone_grpc_geyser::config::ConfigTokio;
use yellowstone_grpc_geyser::taskset::{
    describe, parse_taskset, parse_taskset_within, read_taskset, restrict_to, TasksetError,
};

fn message_of(taskset: &str) -> String {
    parse_taskset(taskset).unwrap_err()
}

#[test]
fn reads_cores_and_intervals() {
    assert_eq!(read_taskset("0,1,5-7").unwrap(), vec![0, 1, 5, 6, 7]);
    assert_eq!(read_taskset("3").unwrap(), vec![3]);
    assert_eq!(read_taskset("4-4").unwrap(), vec![4]);
    assert_eq!(read_taskset("0,1,2-4").unwrap(), vec![0, 1, 2, 3, 4]);
}

#[test]
fn cores_come_once_and_in_order() {
    assert_eq!(read_taskset("7,1,5-7,1").unwrap(), vec![1, 5, 6, 7]);
    assert_eq!(read_taskset("10-12,2,11-13").unwrap(), vec![2, 10, 11, 12, 13]);
}

#[test]
fn entry_order_does_not_matter() {
    let one = read_taskset("0,5-7,2").unwrap();
    assert_eq!(read_taskset("2,0,5-7").unwrap(), one);
    assert_eq!(read_taskset("5-7,2,2,0,0").unwrap(), one);
}

#[test]
fn numerals_and_intervals_read_back() {
    let cores: Vec<usize> = vec![9, 0, 120, usize::MAX];
    let text = format!("{},{},{},{}", cores[0], cores[1], cores[2], cores[3]);
    assert_eq!(read_taskset(&text).unwrap(), vec![0, 9, 120, usize::MAX]);
    assert_eq!(read_taskset(&format!("{}-{}", 98, 101)).unwrap(), vec![98, 99, 100, 101]);
}

#[test]
fn first_fault_decides() {
    assert!(matches!(read_taskset("1,x,3-2").unwrap_err(), TasksetError::Number(s) if s == "x"));
    assert!(
        matches!(read_taskset("1,3-2,x").unwrap_err(), TasksetError::Interval(s) if s == "3-2")
    );
    assert!(matches!(read_taskset("a-b").unwrap_err(), TasksetError::Number(s) if s == "a"));
    assert!(matches!(read_taskset("1-b").unwrap_err(), TasksetError::Number(s) if s == "b"));
}

#[test]
fn empty_parts_are_faulty() {
    assert!(matches!(read_taskset("").unwrap_err(), TasksetError::Number(s) if s.is_empty()));
    assert!(matches!(read_taskset("1,").unwrap_err(), TasksetError::Number(s) if s.is_empty()));
    assert!(matches!(read_taskset(",1").unwrap_err(), TasksetError::Number(s) if s.is_empty()));
    assert!(matches!(read_taskset("-5").unwrap_err(), TasksetError::Number(s) if s.is_empty()));
    assert!(matches!(read_taskset("5-").unwrap_err(), TasksetError::Number(s) if s.is_empty()));
    assert!(matches!(read_taskset("1-2-3").unwrap_err(), TasksetError::Number(s) if s == "2-3"));
}

#[test]
fn messages_quote_the_fault() {
    assert_eq!(message_of("1,x"), "failed to parse \"x\" from \"1,x\"");
    assert_eq!(message_of("5-y"), "failed to parse \"y\" from \"5-y\"");
    assert_eq!(message_of("7-5,1"), "invalid interval \"7-5\" in \"7-5,1\"");
    assert_eq!(message_of(""), "failed to parse \"\" from \"\"");
    assert_eq!(message_of("a\"\n"), "failed to parse \"a\\\"\\n\" from \"a\\\"\\n\"");
}

#[test]
fn describes_every_fault() {
    assert_eq!(
        describe(&TasksetError::Number("t".to_owned()), "<t>", "<all>"),
        "failed to parse <t> from <all>"
    );
    assert_eq!(
        describe(&TasksetError::Interval("t".to_owned()), "<t>", "<all>"),
        "invalid interval <t> in <all>"
    );
    assert_eq!(describe(&TasksetError::Affinity, "", "<all>"), "failed to get affinity");
    assert_eq!(
        describe(&TasksetError::Range(31), "", "<all>"),
        "core index must be in the range [0, 31]"
    );
}

#[test]
fn cores_stay_within_the_bounds() {
    assert_eq!(restrict_to(vec![0, 3], Some(vec![1, 3, 2])).unwrap(), vec![0, 3]);
    assert!(matches!(
        restrict_to(vec![0, 4], Some(vec![1, 3, 2])).unwrap_err(),
        TasksetError::Range(3)
    ));
    assert!(matches!(
        restrict_to(vec![1], Some(Vec::new())).unwrap_err(),
        TasksetError::Range(0)
    ));
    assert_eq!(restrict_to(vec![0], Some(Vec::new())).unwrap(), vec![0]);
    assert!(matches!(restrict_to(vec![0], None).unwrap_err(), TasksetError::Affinity));
    assert_eq!(restrict_to(Vec::new(), None).unwrap(), Vec::<usize>::new());
}

#[test]
fn lists_are_parsed_within_given_bounds() {
    assert_eq!(parse_taskset_within("0,1,5-7", Some(vec![7, 3])).unwrap(), vec![0, 1, 5, 6, 7]);
    assert_eq!(
        parse_taskset_within("0,1,5-7", Some(vec![6, 3])).unwrap_err(),
        "core index must be in the range [0, 6]"
    );
    assert_eq!(
        parse_taskset_within("1", Some(Vec::new())).unwrap_err(),
        "core index must be in the range [0, 0]"
    );
    assert_eq!(parse_taskset_within("0", None).unwrap_err(), "failed to get affinity");
    assert_eq!(
        parse_taskset_within("9-\"", None).unwrap_err(),
        "failed to parse \"\\\"\" from \"9-\\\"\""
    );
}

#[test]
fn the_thread_sets_the_bounds() {
    let bound = affinity::get_thread_affinity().unwrap();
    let max = bound.into_iter().max().unwrap_or(0);
    assert_eq!(parse_taskset("0").unwrap(), vec![0]);
    assert_eq!(parse_taskset(&format!("{max},0")).unwrap().last(), Some(&max));
    assert_eq!(
        message_of(&format!("0,{}", max + 1)),
        format!("core index must be in the range [0, {max}]")
    );
}

#[test]
fn affinity_may_be_left_out() {
    assert_eq!(ConfigTokio::deserialize_affinity(None).unwrap(), None);
    assert_eq!(ConfigTokio::deserialize_affinity(Some("0")).unwrap(), Some(vec![0]));
    assert_eq!(
        ConfigTokio::deserialize_affinity(Some("0,z")).unwrap_err(),
        "failed to parse \"z\" from \"0,z\""
    );
}

fn expected_cores(taskset: &str) -> Option<Vec<usize>> {
    let mut set: HashSet<usize> = HashSet::new();
    for entry in taskset.split(',') {
        match entry.split_once('-') {
            Some((start, end)) => {
                let start: usize = start.parse().ok()?;
                let end: usize = end.parse().ok()?;
                if start > end {
                    return None;
                }
                set.extend(start..=end);
            }
            None => {
                set.insert(entry.parse().ok()?);
            }
        }
    }
    let mut list: Vec<usize> = set.into_iter().collect();
    list.sort();
    Some(list)
}

#[test]
fn short_lists_are_read_like_std_reads_them() {
    let alphabet = ['0', '2', '-', ',', '+', 'x'];
    let mut texts: Vec<String> = vec![String::new()];
    let mut start = 0;
    for _ in 0..5 {
        let end = texts.len();
        for i in start..end {
            for c in alphabet {
                texts.push(format!("{}{}", texts[i], c));
            }
        }
        start = end;
    }
    for text in texts {
        assert_eq!(read_taskset(&text).ok(), expected_cores(&text), "{text}");
    }
}
