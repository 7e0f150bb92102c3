use dataloader::line::{is_blank_line, is_sentinel_line, is_star_line};
use dataloader::parser::{LineEvent, Step, TacticParser};
use dataloader::reader::read_records;
use dataloader::record::ScrapedTactic;

fn lines(text: &[&str]) -> Vec<String> {
    text.iter().map(|l| l.to_string()).collect()
}

fn strings(text: &[&str]) -> Vec<String> {
    lines(text)
}

/// Feeds every line and then the end of input, collecting the records.
fn run_steps(input: &[&str]) -> (Vec<ScrapedTactic>, usize) {
    let mut parser = TacticParser::new();
    let mut out = Vec::new();
    let mut fed = 0;
    for l in input {
        if parser.is_done() {
            break;
        }
        fed += 1;
        match parser.step(LineEvent::Line(l.to_string())) {
            Step::Record(t) => out.push(t),
            Step::NeedLine => {}
            Step::EndOfStream => break,
            Step::DecodeError => panic!("no undecodable line was fed"),
        }
    }
    if !parser.is_done() {
        match parser.step(LineEvent::EndOfInput) {
            Step::EndOfStream => {}
            _ => panic!("the end of input must end the stream"),
        }
    }
    (out, fed)
}

const EXAMPLE: [&str; 12] = [
    "h1",
    "h2",
    "-----",
    "pt1",
    "*****",
    "hyp1",
    "hyp2",
    "*****",
    "thegoal",
    "===",
    "apply foo.",
    "-----",
];

#[test]
fn example_yields_one_record() {
    let recs = read_records(&lines(&EXAMPLE));
    assert_eq!(recs.len(), 1);
    let r = &recs[0];
    assert_eq!(r.prev_tactics, strings(&["pt1"]));
    assert_eq!(r.hypotheses, strings(&["hyp1", "hyp2"]));
    assert_eq!(r.goal, "thegoal");
    assert_eq!(r.tactic, "apply foo.");
    assert!(r.relevant_lemmas.is_empty());
}

#[test]
fn example_by_steps_matches_whole_text() {
    let (recs, fed) = run_steps(&EXAMPLE);
    assert_eq!(recs, read_records(&lines(&EXAMPLE)));
    // the trailing dash line is an empty header block, which is skipped
    assert_eq!(fed, 12);
}

#[test]
fn single_line_header_is_skipped() {
    let mut input = vec!["lonely", "-----"];
    input.extend_from_slice(&EXAMPLE);
    let recs = read_records(&lines(&input));
    assert_eq!(recs.len(), 1);
    assert_eq!(recs[0].goal, "thegoal");
    assert_eq!(recs[0].tactic, "apply foo.");
    assert_eq!(recs[0].prev_tactics, strings(&["pt1"]));
}

#[test]
fn single_line_header_ended_by_stars_is_skipped() {
    let mut input = vec!["lonely", "*****"];
    input.extend_from_slice(&EXAMPLE);
    assert_eq!(read_records(&lines(&input)).len(), 1);
}

#[test]
fn truncated_after_goal_yields_nothing() {
    let input = ["h1", "h2", "-----", "pt1", "*****", "hyp1", "*****", "thegoal"];
    assert!(read_records(&lines(&input)).is_empty());
    let (recs, _) = run_steps(&input);
    assert!(recs.is_empty());
}

#[test]
fn truncated_after_separator_yields_nothing() {
    let input = ["h1", "h2", "-----", "*****", "*****", "g", "==="];
    assert!(read_records(&lines(&input)).is_empty());
}

#[test]
fn truncated_tail_keeps_earlier_records() {
    let mut input: Vec<&str> = EXAMPLE[..11].to_vec();
    input.extend_from_slice(&["h3", "h4", "-----", "pt2", "*****"]);
    let recs = read_records(&lines(&input));
    assert_eq!(recs.len(), 1);
    assert_eq!(recs[0].tactic, "apply foo.");
}

#[test]
fn records_follow_each_other() {
    let input = [
        "a1", "a2", "-----", "t1", "*****", "x", "*****", "g1", "sep", "tac1", "b1", "b2", "b3",
        "*****", "*****", "*****", "g2", "sep", "tac2",
    ];
    let recs = read_records(&lines(&input));
    assert_eq!(recs.len(), 2);
    assert_eq!(recs[0].goal, "g1");
    assert_eq!(recs[0].tactic, "tac1");
    assert_eq!(recs[0].prev_tactics, strings(&["t1"]));
    assert_eq!(recs[0].hypotheses, strings(&["x"]));
    assert_eq!(recs[1].goal, "g2");
    assert_eq!(recs[1].tactic, "tac2");
    assert!(recs[1].prev_tactics.is_empty());
    assert!(recs[1].hypotheses.is_empty());
    let (stepped, _) = run_steps(&input);
    assert_eq!(stepped, recs);
}

#[test]
fn records_counted_by_long_headers() {
    let input = [
        "one", "-----", "a1", "a2", "-----", "t1", "*****", "*****", "g1", "sep", "tac1", "solo",
        "*****", "b1", "b2", "-----", "*****", "*****", "g2", "sep", "tac2",
    ];
    let recs = read_records(&lines(&input));
    assert_eq!(recs.len(), 2);
    assert_eq!(recs[0].tactic, "tac1");
    assert_eq!(recs[1].tactic, "tac2");
}

#[test]
fn blank_lines_in_sections_are_dropped() {
    let input = [
        "h1", "", "h2", "-----", "", "pt1", "", "pt2", "*****", "", "hyp1", "", "*****", "goal",
        "", "tac",
    ];
    let recs = read_records(&lines(&input));
    assert_eq!(recs.len(), 1);
    assert_eq!(recs[0].prev_tactics, strings(&["pt1", "pt2"]));
    assert_eq!(recs[0].hypotheses, strings(&["hyp1"]));
    assert_eq!(recs[0].goal, "goal");
    assert_eq!(recs[0].tactic, "tac");
}

#[test]
fn goal_and_tactic_are_verbatim() {
    let input = [
        "h1", "h2", "-----", "*****", "*****", "  spaced goal\t", "anything at all", " tac ",
    ];
    let recs = read_records(&lines(&input));
    assert_eq!(recs.len(), 1);
    assert_eq!(recs[0].goal, "  spaced goal\t");
    assert_eq!(recs[0].tactic, " tac ");
}

#[test]
fn dash_line_inside_section_is_content() {
    let input = ["h1", "h2", "-----", "-----", "*****", "*****", "g", "s", "t"];
    let recs = read_records(&lines(&input));
    assert_eq!(recs.len(), 1);
    assert_eq!(recs[0].prev_tactics, strings(&["-----"]));
}

#[test]
fn empty_input_yields_nothing() {
    assert!(read_records(&Vec::new()).is_empty());
    let mut parser = TacticParser::new();
    assert!(matches!(parser.step(LineEvent::EndOfInput), Step::EndOfStream));
    assert!(parser.is_done());
}

#[test]
fn empty_header_block_is_skipped() {
    let mut input = vec!["*****"];
    input.extend_from_slice(&EXAMPLE);
    let recs = read_records(&lines(&input));
    assert_eq!(recs.len(), 1);
    assert_eq!(recs[0].tactic, "apply foo.");
    let (stepped, fed) = run_steps(&input);
    assert_eq!(stepped, recs);
    assert_eq!(fed, 13);
}

#[test]
fn dash_line_between_records_starts_the_next() {
    let input = [
        "h1", "h2", "-----", "p", "*****", "y", "*****", "g", "==", "t", "-----", "h3", "h4",
        "-----", "p2", "*****", "y2", "*****", "g2", "==", "t2", "-----",
    ];
    let recs = read_records(&lines(&input));
    assert_eq!(recs.len(), 2);
    assert_eq!(recs[0].prev_tactics, strings(&["p"]));
    assert_eq!(recs[0].hypotheses, strings(&["y"]));
    assert_eq!(recs[0].goal, "g");
    assert_eq!(recs[0].tactic, "t");
    assert_eq!(recs[1].prev_tactics, strings(&["p2"]));
    assert_eq!(recs[1].hypotheses, strings(&["y2"]));
    assert_eq!(recs[1].goal, "g2");
    assert_eq!(recs[1].tactic, "t2");
    assert!(recs[1].relevant_lemmas.is_empty());
    let (stepped, _) = run_steps(&input);
    assert_eq!(stepped, recs);
}

#[test]
fn repeated_sentinels_are_skipped() {
    let mut input = vec!["-----", "*****", "-----"];
    input.extend_from_slice(&EXAMPLE);
    input.extend_from_slice(&["-----", "-----"]);
    assert_eq!(read_records(&lines(&input)).len(), 1);
}

#[test]
fn header_without_sentinel_yields_nothing() {
    assert!(read_records(&lines(&["h1", "h2", "h3"])).is_empty());
}

#[test]
fn undecodable_line_fails_the_stream() {
    let mut parser = TacticParser::new();
    assert!(matches!(parser.step(LineEvent::Line("h1".to_string())), Step::NeedLine));
    assert!(matches!(parser.step(LineEvent::Undecodable), Step::DecodeError));
    assert!(parser.is_done());
    assert!(matches!(parser.step(LineEvent::Line("h2".to_string())), Step::EndOfStream));
}

#[test]
fn end_of_input_mid_record_ends_the_stream() {
    let mut parser = TacticParser::new();
    for l in ["h1", "h2", "-----", "pt"] {
        assert!(matches!(parser.step(LineEvent::Line(l.to_string())), Step::NeedLine));
    }
    assert!(matches!(parser.step(LineEvent::EndOfInput), Step::EndOfStream));
    assert!(parser.is_done());
}

#[test]
fn reader_goes_on_after_a_record() {
    let mut parser = TacticParser::new();
    for l in &EXAMPLE[..10] {
        assert!(matches!(parser.step(LineEvent::Line(l.to_string())), Step::NeedLine));
    }
    match parser.step(LineEvent::Line("apply foo.".to_string())) {
        Step::Record(t) => assert_eq!(t.tactic, "apply foo."),
        _ => panic!("the tactic line completes the record"),
    }
    assert!(!parser.is_done());
}

#[test]
fn line_classes() {
    assert!(is_sentinel_line("-----"));
    assert!(is_sentinel_line("*****"));
    assert!(!is_sentinel_line("----"));
    assert!(!is_sentinel_line("------"));
    assert!(!is_sentinel_line("--*--"));
    assert!(!is_sentinel_line(" -----"));
    assert!(is_star_line("*****"));
    assert!(!is_star_line("-----"));
    assert!(!is_star_line("****"));
    assert!(is_blank_line(""));
    assert!(!is_blank_line(" "));
}
