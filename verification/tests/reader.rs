use price_sampler::cli::{dispatch, Command};
use price_sampler::reader::{reader_output, FileProbe, EMPTY_NOTICE, MISSING_NOTICE};
use price_sampler::record::{result_line, RESULT_FILE, RESULT_PREFIX};
use price_sampler::sampler::{FetchOutcome, Sampler, SamplerStep};

#[test]
fn missing_file_gives_the_notice_and_nothing_else() {
    let shown = reader_output(FileProbe::Missing, Vec::new());
    assert_eq!(
        shown,
        vec!["The result.txt file does not exist. Run in cache mode first.".to_string()]
    );
    assert_eq!(shown, vec![MISSING_NOTICE.to_string()]);
}

#[test]
fn missing_file_ignores_lines_handed_in() {
    let shown = reader_output(FileProbe::Missing, vec!["stale".to_string()]);
    assert_eq!(shown, vec![MISSING_NOTICE.to_string()]);
}

#[test]
fn empty_file_gives_the_notice() {
    let shown = reader_output(FileProbe::Present { len: 0 }, Vec::new());
    assert_eq!(
        shown,
        vec!["The result.txt file is empty. Run in cache mode first.".to_string()]
    );
    assert_eq!(shown, vec![EMPTY_NOTICE.to_string()]);
    let shown = reader_output(FileProbe::Present { len: 0 }, vec!["stale".to_string()]);
    assert_eq!(shown, vec![EMPTY_NOTICE.to_string()]);
}

#[test]
fn result_line_is_shown_verbatim() {
    let line = "Cache complete. The average USD price of BTC on Coinbase is: 42.5".to_string();
    let shown = reader_output(FileProbe::Present { len: line.len() as u64 + 1 }, vec![line.clone()]);
    assert_eq!(shown, vec![line]);
}

#[test]
fn every_line_is_shown_in_order() {
    let lines = vec![
        "first".to_string(),
        "".to_string(),
        "  third, with blanks  ".to_string(),
        "The result.txt file is empty. Run in cache mode first.".to_string(),
    ];
    let shown = reader_output(FileProbe::Present { len: 80 }, lines.clone());
    assert_eq!(shown, lines);
    let shown = reader_output(FileProbe::Present { len: 1 }, Vec::new());
    assert_eq!(shown, Vec::<String>::new());
}

#[test]
fn only_a_file_with_bytes_is_read() {
    assert!(!FileProbe::Missing.wants_contents());
    assert!(!FileProbe::Present { len: 0 }.wants_contents());
    assert!(FileProbe::Present { len: 1 }.wants_contents());
    assert!(FileProbe::Present { len: u64::MAX }.wants_contents());
}

#[test]
fn result_line_holds_the_average_as_given() {
    assert_eq!(
        result_line("100"),
        "Cache complete. The average USD price of BTC on Coinbase is: 100"
    );
    assert_eq!(
        result_line("42.5"),
        "Cache complete. The average USD price of BTC on Coinbase is: 42.5"
    );
    assert_eq!(result_line("NaN"), format!("{}NaN", RESULT_PREFIX));
    assert_eq!(result_line(""), RESULT_PREFIX);
    assert_eq!(RESULT_FILE, "result.txt");
}

#[test]
fn two_samples_of_one_hundred_end_to_end() {
    let args: Vec<String> =
        ["simple", "--mode=cache", "--times=2"].iter().map(|a| a.to_string()).collect();
    let times = match dispatch(&args) {
        Command::Cache { times } => times,
        other => panic!("{:?}", other),
    };
    assert_eq!(times, 2);

    let mut sampler = Sampler::new(times);
    let mut sum = 0.0;
    let mut fetches = 0;
    while sampler.next_step() == SamplerStep::Fetch {
        let amount: f64 = "100".parse().unwrap_or(0.0);
        sum += amount;
        fetches += 1;
        sampler.record(FetchOutcome::Received);
    }
    assert_eq!(fetches, 2);
    let average = sum / sampler.target() as f64;
    let line = result_line(&format!("{}", average));
    assert_eq!(line, "Cache complete. The average USD price of BTC on Coinbase is: 100");

    let file = format!("{}\n", line);
    let read_args: Vec<String> = ["simple", "--mode=read"].iter().map(|a| a.to_string()).collect();
    assert_eq!(dispatch(&read_args), Command::Read);
    let probe = FileProbe::Present { len: file.len() as u64 };
    assert!(probe.wants_contents());
    let lines: Vec<String> = file.lines().map(|l| l.to_string()).collect();
    assert_eq!(reader_output(probe, lines), vec![line]);
}
