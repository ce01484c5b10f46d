use semantic_release_cargo::logger::{default_log_dest_for_level, level_into_level_filter};
use semantic_release_cargo::{
    group_features, parse_key_val, Level, LevelFilter, LogDestination, LogWriter, Logger,
    LoggerBuilder,
};

const LEVELS: [Level; 5] = [Level::Error, Level::Warn, Level::Info, Level::Debug, Level::Trace];

fn writers(destination: &LogDestination<&'static str>) -> Vec<String> {
    let describe = |writer: &LogWriter<&'static str>| match writer {
        LogWriter::Stdout => "stdout".to_string(),
        LogWriter::Stderr => "stderr".to_string(),
        LogWriter::Custom(name) => name.to_string(),
    };
    match destination {
        LogDestination::Single(writer) => vec![describe(writer)],
        LogDestination::Multi(writers) => writers.iter().map(describe).collect(),
    }
}

fn builder() -> LoggerBuilder<&'static str> {
    LoggerBuilder::default()
}

fn let_through(logger: &Logger<&'static str>) -> Vec<bool> {
    LEVELS.iter().map(|level| logger.enabled(*level)).collect()
}

#[test]
fn logger_writes_errors_and_warnings_to_stderr_by_default() {
    let logger = builder().init();

    assert_eq!(writers(logger.as_logdestination_from_level(Level::Error)), ["stderr"]);
    assert_eq!(writers(logger.as_logdestination_from_level(Level::Warn)), ["stderr"]);
    assert_eq!(writers(logger.as_logdestination_from_level(Level::Info)), ["stdout"]);
    assert_eq!(writers(logger.as_logdestination_from_level(Level::Debug)), ["stdout"]);
    assert_eq!(writers(logger.as_logdestination_from_level(Level::Trace)), ["stdout"]);
    assert_eq!(logger.max_level_filter(), LevelFilter::Warn);
    assert!(matches!(
        default_log_dest_for_level::<u8>(Level::Warn),
        LogDestination::Single(LogWriter::Stderr)
    ));
    assert!(matches!(
        default_log_dest_for_level::<u8>(Level::Info),
        LogDestination::Single(LogWriter::Stdout)
    ));
}

#[test]
fn logger_output_replaces_the_destination_of_one_level() {
    let logger = builder()
        .output(Level::Trace, LogWriter::Stderr)
        .output(Level::Debug, LogWriter::Custom("file"))
        .output(Level::Debug, LogWriter::Custom("other"))
        .init();

    assert_eq!(writers(logger.as_logdestination_from_level(Level::Trace)), ["stderr"]);
    assert_eq!(writers(logger.as_logdestination_from_level(Level::Debug)), ["other"]);
    assert_eq!(writers(logger.as_logdestination_from_level(Level::Info)), ["stdout"]);
    assert_eq!(writers(logger.as_logdestination_from_level(Level::Error)), ["stderr"]);
    assert_eq!(logger.max_level_filter(), LevelFilter::Warn);
}

#[test]
fn logger_append_output_adds_a_writer_to_one_level() {
    let logger = builder()
        .append_output(Level::Error, LogWriter::Custom("file"))
        .append_output(Level::Error, LogWriter::Stdout)
        .append_output(Level::Info, LogWriter::Custom("info"))
        .output(Level::Warn, LogWriter::Custom("only"))
        .append_output(Level::Warn, LogWriter::Stderr)
        .init();

    assert_eq!(
        writers(logger.as_logdestination_from_level(Level::Error)),
        ["stderr", "file", "stdout"]
    );
    assert_eq!(writers(logger.as_logdestination_from_level(Level::Info)), ["stdout", "info"]);
    assert_eq!(writers(logger.as_logdestination_from_level(Level::Warn)), ["only", "stderr"]);
    assert_eq!(writers(logger.as_logdestination_from_level(Level::Trace)), ["stdout"]);
    assert!(matches!(
        logger.as_logdestination_from_level(Level::Error),
        LogDestination::Multi(_)
    ));
}

#[test]
fn logger_destinations_grow_by_push() {
    let single = LogDestination::from(LogWriter::Custom("a"));
    assert_eq!(writers(&single), ["a"]);

    let two = single.push(LogWriter::Custom("b"));
    assert_eq!(writers(&two), ["a", "b"]);

    let three = two.push(LogWriter::Stdout);
    assert_eq!(writers(&three), ["a", "b", "stdout"]);
}

#[test]
fn logger_max_level_sets_the_filter() {
    assert_eq!(builder().max_level(Level::Error).init().max_level_filter(), LevelFilter::Error);
    assert_eq!(builder().max_level(Level::Warn).init().max_level_filter(), LevelFilter::Warn);
    assert_eq!(builder().max_level(Level::Info).init().max_level_filter(), LevelFilter::Info);
    assert_eq!(builder().max_level(Level::Debug).init().max_level_filter(), LevelFilter::Debug);
    assert_eq!(builder().max_level(Level::Trace).init().max_level_filter(), LevelFilter::Trace);
    assert_eq!(level_into_level_filter(Level::Info), LevelFilter::Info);
}

#[test]
fn logger_verbosity_counts_from_the_default_level() {
    assert_eq!(builder().verbosity(0).init().max_level_filter(), LevelFilter::Warn);
    assert_eq!(builder().verbosity(1).init().max_level_filter(), LevelFilter::Info);
    assert_eq!(builder().verbosity(2).init().max_level_filter(), LevelFilter::Debug);
    assert_eq!(builder().verbosity(3).init().max_level_filter(), LevelFilter::Trace);
    assert_eq!(builder().verbosity(4).init().max_level_filter(), LevelFilter::Trace);
    assert_eq!(builder().verbosity(255).init().max_level_filter(), LevelFilter::Trace);
    // The last setting counts.
    let logger = builder().max_level(Level::Trace).verbosity(1).init();
    assert_eq!(logger.max_level_filter(), LevelFilter::Info);
}

#[test]
fn logger_lets_through_what_is_not_more_verbose_than_its_filter() {
    assert_eq!(let_through(&builder().init()), [true, true, false, false, false]);
    assert_eq!(
        let_through(&builder().max_level(Level::Error).init()),
        [true, false, false, false, false]
    );
    assert_eq!(
        let_through(&builder().max_level(Level::Debug).init()),
        [true, true, true, true, false]
    );
    assert_eq!(let_through(&builder().verbosity(9).init()), [true, true, true, true, true]);
    let mut silent = builder().init();
    silent.max_level = LevelFilter::Off;
    assert_eq!(let_through(&silent), [false, false, false, false, false]);
}

#[test]
fn logger_says_where_a_record_goes() {
    let logger = builder()
        .max_level(Level::Info)
        .output(Level::Info, LogWriter::Custom("info"))
        .append_output(Level::Info, LogWriter::Stderr)
        .init();

    assert_eq!(writers(logger.log(Level::Info).expect("let through")), ["info", "stderr"]);
    assert_eq!(writers(logger.log(Level::Error).expect("let through")), ["stderr"]);
    assert!(logger.log(Level::Debug).is_none());
    assert!(logger.log(Level::Trace).is_none());
}

#[test]
fn levels_have_their_places() {
    let places: Vec<u8> = LEVELS.iter().map(|level| level.place()).collect();
    assert_eq!(places, [1, 2, 3, 4, 5]);
    assert_eq!(LevelFilter::Off.place(), 0);
    assert_eq!(LevelFilter::Error.place(), 1);
    assert_eq!(LevelFilter::Trace.place(), 5);
}

#[test]
fn parse_key_val_splits_at_the_first_equals_sign() {
    assert_eq!(parse_key_val("foo=bar"), Ok(("foo".to_string(), "bar".to_string())));
    assert_eq!(parse_key_val("foo=bar=baz"), Ok(("foo".to_string(), "bar=baz".to_string())));
    assert_eq!(parse_key_val("=bar"), Ok((String::new(), "bar".to_string())));
    assert_eq!(parse_key_val("foo="), Ok(("foo".to_string(), String::new())));
    assert_eq!(parse_key_val("="), Ok((String::new(), String::new())));
    assert_eq!(parse_key_val("p\u{e4}ckage=f\u{e9}ature/x"), Ok(("p\u{e4}ckage".into(), "f\u{e9}ature/x".into())));
}

#[test]
fn parse_key_val_needs_an_equals_sign() {
    assert_eq!(
        parse_key_val("foobar"),
        Err("invalid KEY=value: no `=` found in `foobar`".to_string())
    );
    assert_eq!(parse_key_val(""), Err("invalid KEY=value: no `=` found in ``".to_string()));
}

#[test]
fn group_features_collects_the_features_of_each_package() {
    let pair = |package: &str, feature: &str| (package.to_string(), feature.to_string());
    let pairs =
        vec![pair("foo", "bar"), pair("baz", "qux"), pair("foo", "std"), pair("foo", "bar")];

    let grouped = group_features(pairs);

    assert_eq!(grouped.len(), 2);
    assert_eq!(grouped[0].package, "foo");
    assert_eq!(grouped[0].features, ["bar", "std", "bar"]);
    assert_eq!(grouped[1].package, "baz");
    assert_eq!(grouped[1].features, ["qux"]);
    assert!(group_features(Vec::new()).is_empty());
}
