use acmon::cli::{
    agtop_usage, amon_usage, parse_agtop, parse_amon, AgtopRequest, AmonRequest, AmonVerb,
    CliError, VerbState,
};

fn arguments(words: &[&str]) -> Vec<String> {
    words.iter().map(|word| word.to_string()).collect()
}

#[test]
fn every_verb_is_found_by_its_own_name() {
    for verb in AmonVerb::all() {
        assert!(AmonVerb::from_name(verb.name()) == Some(verb));
    }
    assert!(AmonVerb::from_name("frobnicate").is_none());
}

#[test]
fn a_verb_and_its_flag_are_understood() {
    assert!(
        parse_amon(arguments(&["watch"]))
            == Ok(AmonRequest::Verb { verb: AmonVerb::Watch, foreground: false })
    );
    assert!(
        parse_amon(arguments(&["watch", "--foreground"]))
            == Ok(AmonRequest::Verb { verb: AmonVerb::Watch, foreground: true })
    );
    assert!(parse_amon(arguments(&["--help"])) == Ok(AmonRequest::Help));
    assert!(parse_amon(arguments(&["-h", "status"])) == Ok(AmonRequest::Help));
}

#[test]
fn every_wrong_monitor_command_line_is_refused_for_its_own_reason() {
    let nothing = parse_amon(vec![]);
    assert!(nothing == Err(CliError::NoVerb));
    assert_eq!(nothing.err().unwrap().to_text(), "no verb given");

    let unknown = parse_amon(arguments(&["dance"]));
    assert!(unknown == Err(CliError::UnknownVerb("dance".to_string())));
    assert_eq!(unknown.err().unwrap().to_text(), "unknown verb `dance`");

    let misplaced = parse_amon(arguments(&["status", "--foreground"]));
    assert_eq!(
        misplaced.err().unwrap().to_text(),
        "`--foreground` is not a flag `status` takes"
    );

    let extra = parse_amon(arguments(&["watch", "now"]));
    assert!(extra == Err(CliError::UnexpectedArgument("now".to_string())));
    assert_eq!(extra.err().unwrap().to_text(), "unexpected argument `now`");
}

#[test]
fn the_display_takes_one_flag() {
    assert!(parse_agtop(vec![]) == Ok(AgtopRequest::Live));
    assert!(parse_agtop(arguments(&["--once"])) == Ok(AgtopRequest::Once));
    assert!(parse_agtop(arguments(&["--help"])) == Ok(AgtopRequest::Help));
    assert!(
        parse_agtop(arguments(&["--twice"]))
            == Err(CliError::UnexpectedArgument("--twice".to_string()))
    );
}

#[test]
fn usage_names_every_verb_in_one_column() {
    let usage = amon_usage();
    for verb in AmonVerb::all() {
        let line = format!("    {:<9}  {}", verb.name(), verb.summary());
        assert!(usage.contains(&line), "{line}");
    }
    assert!(agtop_usage().starts_with("agtop — the display."));
}

#[test]
fn a_marker_says_what_is_not_there_yet() {
    assert_eq!(VerbState::Available.marker(), "");
    let planned = VerbState::Planned { tracked_as: "#9" }.marker();
    assert!(planned.contains("#9"), "{planned}");
}
