use task_store::record::{fits_record, HEADER_SIZE, MAX_RECORD_SIZE};
use task_store::task::Task;

fn sample() -> Task {
    Task {
        owner: String::from("aaaaa-aa"),
        id: 7,
        title: String::from("Buy milk"),
        description: String::from("2 l, whole"),
        completed: false,
        created_at: 1_000,
        updated_at: None,
        deadline: Some(2_000),
        completed_late: false,
    }
}

fn sample_bytes() -> Vec<u8> {
    let mut bytes = Vec::new();
    bytes.extend_from_slice(&7u64.to_le_bytes());
    bytes.extend_from_slice(&1_000u64.to_le_bytes());
    bytes.push(0);
    bytes.push(0);
    bytes.push(0);
    bytes.extend_from_slice(&0u64.to_le_bytes());
    bytes.push(1);
    bytes.extend_from_slice(&2_000u64.to_le_bytes());
    bytes.extend_from_slice(&8u64.to_le_bytes());
    bytes.extend_from_slice(&8u64.to_le_bytes());
    bytes.extend_from_slice(b"aaaaa-aa");
    bytes.extend_from_slice(b"Buy milk");
    bytes.extend_from_slice(b"2 l, whole");
    bytes
}

#[test]
fn record_has_the_documented_layout() {
    assert_eq!(sample().to_bytes(), sample_bytes());
    assert_eq!(sample_bytes().len(), HEADER_SIZE + 8 + 8 + 10);
}

#[test]
fn record_of_a_completed_task() {
    let mut task = sample();
    task.completed = true;
    task.completed_late = true;
    task.updated_at = Some(3_000);
    task.deadline = None;
    let bytes = task.to_bytes();
    assert_eq!(&bytes[16..18], &[1, 1]);
    assert_eq!(bytes[18], 1);
    assert_eq!(&bytes[19..27], &3_000u64.to_le_bytes());
    assert_eq!(&bytes[27..36], &[0u8; 9]);
    assert_eq!(Task::from_bytes(&bytes), Some(task));
}

#[test]
fn parsing_undoes_encoding() {
    let task = sample();
    assert_eq!(Task::from_bytes(&task.to_bytes()), Some(task));
}

#[test]
fn parsing_reads_the_documented_layout() {
    assert_eq!(Task::from_bytes(&sample_bytes()), Some(sample()));
}

#[test]
fn record_keeps_text_that_is_not_ascii() {
    let mut task = sample();
    task.title = String::from("Käse & 牛乳 🥛");
    task.description = String::new();
    let bytes = task.to_bytes();
    assert_eq!(bytes.len(), HEADER_SIZE + 8 + task.title.len());
    assert_eq!(Task::from_bytes(&bytes), Some(task));
}

#[test]
fn record_of_empty_texts_is_the_header() {
    let task = Task {
        owner: String::new(),
        id: u64::MAX,
        title: String::new(),
        description: String::new(),
        completed: true,
        created_at: u64::MAX,
        updated_at: Some(u64::MAX),
        deadline: Some(0),
        completed_late: false,
    };
    let bytes = task.to_bytes();
    assert_eq!(bytes.len(), HEADER_SIZE);
    assert_eq!(Task::from_bytes(&bytes), Some(task));
}

#[test]
fn parsing_refuses_a_short_header() {
    let bytes = sample_bytes();
    assert_eq!(Task::from_bytes(&bytes[..HEADER_SIZE - 1]), None);
    assert_eq!(Task::from_bytes(&[]), None);
}

#[test]
fn parsing_refuses_texts_that_are_cut_off() {
    let bytes = sample_bytes();
    assert_eq!(Task::from_bytes(&bytes[..HEADER_SIZE + 15]), None);
    let mut long_owner = sample_bytes();
    long_owner[36..44].copy_from_slice(&u64::MAX.to_le_bytes());
    assert_eq!(Task::from_bytes(&long_owner), None);
    let mut long_title = sample_bytes();
    long_title[44..52].copy_from_slice(&u64::MAX.to_le_bytes());
    assert_eq!(Task::from_bytes(&long_title), None);
    let mut one_too_many = sample_bytes();
    one_too_many[44..52].copy_from_slice(&19u64.to_le_bytes());
    assert_eq!(Task::from_bytes(&one_too_many), None);
    let mut all_title = sample_bytes();
    all_title[44..52].copy_from_slice(&18u64.to_le_bytes());
    assert_eq!(Task::from_bytes(&all_title).unwrap().title, "Buy milk2 l, whole");
}

#[test]
fn parsing_takes_the_rest_as_description() {
    let bytes = sample_bytes();
    let parsed = Task::from_bytes(&bytes[..HEADER_SIZE + 16]).unwrap();
    assert_eq!(parsed.description, "");
    assert_eq!(parsed.title, "Buy milk");
}

#[test]
fn parsing_refuses_a_flag_that_is_not_0_or_1() {
    let mut completed = sample_bytes();
    completed[16] = 2;
    assert_eq!(Task::from_bytes(&completed), None);
    let mut late = sample_bytes();
    late[17] = 255;
    assert_eq!(Task::from_bytes(&late), None);
}

#[test]
fn parsing_refuses_a_malformed_time_stamp() {
    let mut tag = sample_bytes();
    tag[27] = 2;
    assert_eq!(Task::from_bytes(&tag), None);
    let mut absent_with_value = sample_bytes();
    absent_with_value[19] = 1;
    assert_eq!(Task::from_bytes(&absent_with_value), None);
}

#[test]
fn parsing_refuses_text_that_is_not_utf8() {
    let mut owner = sample_bytes();
    owner[HEADER_SIZE] = 0xff;
    assert_eq!(Task::from_bytes(&owner), None);
    let mut title = sample_bytes();
    title[HEADER_SIZE + 8] = 0xc0;
    assert_eq!(Task::from_bytes(&title), None);
    let mut description = sample_bytes();
    let last = description.len() - 1;
    description[last] = 0xe2;
    assert_eq!(Task::from_bytes(&description), None);
}

#[test]
fn parsing_refuses_a_text_split_inside_a_character() {
    let mut task = sample();
    task.owner = String::from("é");
    task.title = String::from("é");
    let mut bytes = task.to_bytes();
    bytes[36..44].copy_from_slice(&1u64.to_le_bytes());
    bytes[44..52].copy_from_slice(&3u64.to_le_bytes());
    assert_eq!(Task::from_bytes(&bytes), None);
}

#[test]
fn largest_record_fits() {
    let owner = String::from("aaaaa-aa");
    let title = "t".repeat(100);
    let room = MAX_RECORD_SIZE - HEADER_SIZE - owner.len() - title.len();
    assert!(fits_record(&owner, &title, &"d".repeat(room)));
    assert!(!fits_record(&owner, &title, &"d".repeat(room + 1)));
    let task = Task {
        owner,
        id: 0,
        title,
        description: "d".repeat(room),
        completed: false,
        created_at: 0,
        updated_at: None,
        deadline: None,
        completed_late: false,
    };
    assert_eq!(task.to_bytes().len(), MAX_RECORD_SIZE);
}

#[test]
fn record_size_counts_bytes_not_characters() {
    let room = MAX_RECORD_SIZE - HEADER_SIZE;
    assert!(fits_record(&String::new(), &String::new(), &"é".repeat(room / 2)));
    assert!(!fits_record(&String::new(), &String::new(), &"é".repeat(room / 2 + 1)));
    assert!(!fits_record(&"x".repeat(room + 1), &String::new(), &String::new()));
    assert!(!fits_record(&String::new(), &"x".repeat(room + 1), &String::new()));
    assert!(fits_record(&String::new(), &String::new(), &String::new()));
}

#[test]
fn record_may_be_larger_than_the_store_keeps() {
    let mut task = sample();
    task.description = "d".repeat(5_000);
    let bytes = task.to_bytes();
    assert_eq!(bytes.len(), HEADER_SIZE + 16 + 5_000);
    assert!(!fits_record(&task.owner, &task.title, &task.description));
    assert_eq!(Task::from_bytes(&bytes), Some(task));
}

#[test]
fn record_limits_are_as_documented() {
    assert_eq!(MAX_RECORD_SIZE, 1024);
    assert_eq!(HEADER_SIZE, 52);
}
