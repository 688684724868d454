use log2click::parser::{Json, Regular};
use log2click::pattern::Pattern;
use log2click::{CObject, Filter, LogMessage, Section, SyncError};

fn text(value: &str) -> CObject {
    CObject::String(value.to_string())
}

fn message(body: &str) -> LogMessage {
    LogMessage::new("logs", Some(Ok(body)), 0, 1)
}

fn parser_conf(regex: &str, mapping: &str) -> Section {
    let mut parser = Section::new();
    parser.insert("regex".to_string(), text(regex));
    parser.insert("mapping".to_string(), text(mapping));
    let mut conf = Section::new();
    conf.insert("parser".to_string(), CObject::Object(parser));
    conf
}

fn with_attributes(log: Option<&str>, pairs: &[(&str, &str)]) -> LogMessage {
    let mut map = serde_json::Map::new();
    for (name, value) in pairs {
        map.insert(name.to_string(), serde_json::Value::String(value.to_string()));
    }
    let mut record = message("");
    record.log = log.map(|line| line.to_string());
    record.map = Some(map);
    record
}

fn attribute(record: &LogMessage, name: &str) -> Option<String> {
    record.map.as_ref().and_then(|map| map.get(name)).and_then(|value| value.as_str()).map(
        |found| found.to_string(),
    )
}

#[test]
fn structural_parser_takes_the_trimmed_log_line_and_all_fields() {
    let out = Json.process(vec![message("{\"log\":\" hello \",\"lvl\":\"INFO\"}")]).unwrap();
    assert_eq!(out.len(), 1);
    assert_eq!(out[0].log.as_deref(), Some("hello"));
    let map = out[0].map.as_ref().unwrap();
    assert_eq!(map.len(), 2);
    assert_eq!(map.get("log"), Some(&serde_json::Value::String(" hello ".to_string())));
    assert_eq!(map.get("lvl"), Some(&serde_json::Value::String("INFO".to_string())));
    assert_eq!(out[0].body, "{\"log\":\" hello \",\"lvl\":\"INFO\"}");
    assert_eq!(out[0].topic, "logs");
    assert_eq!(out[0].partition, 0);
    assert_eq!(out[0].offset, 1);
}

#[test]
fn structural_parser_keeps_fields_that_are_no_text() {
    let out = Json.process(vec![message("{\"log\":\"x\",\"n\":3,\"inner\":{\"a\":[1,2]}}")]).unwrap();
    let map = out[0].map.as_ref().unwrap();
    assert_eq!(map.get("n").and_then(|value| value.as_u64()), Some(3));
    assert!(map.get("inner").is_some_and(|value| value.is_object()));
}

#[test]
fn structural_parser_fails_the_batch_on_a_body_that_is_not_json() {
    let batch = vec![message("{\"log\":\"fine\"}"), message("not json")];
    assert!(matches!(Json.process(batch), Err(SyncError::JSONError(_))));
}

#[test]
fn structural_parser_fails_the_batch_on_a_body_that_is_no_object() {
    assert!(matches!(Json.process(vec![message("\"not json\"")]), Err(SyncError::Option)));
    assert!(matches!(Json.process(vec![message("[1,2]")]), Err(SyncError::Option)));
    assert!(matches!(Json.process(vec![message("12")]), Err(SyncError::Option)));
}

#[test]
fn structural_parser_fails_the_batch_without_a_text_under_log() {
    assert!(matches!(Json.process(vec![message("{\"lvl\":\"INFO\"}")]), Err(SyncError::Option)));
    assert!(matches!(Json.process(vec![message("{\"log\":5}")]), Err(SyncError::Option)));
    assert!(matches!(Json.process(vec![message("{\"log\":null}")]), Err(SyncError::Option)));
}

#[test]
fn structural_parser_reports_the_first_failure() {
    let batch = vec![message("{\"log\":\"a\"}"), message("{}"), message("not json")];
    assert!(matches!(Json.process(batch), Err(SyncError::Option)));
    let batch = vec![message("oops"), message("{}")];
    assert!(matches!(Json.process(batch), Err(SyncError::JSONError(_))));
}

#[test]
fn structural_parser_passes_an_empty_batch() {
    assert_eq!(Json.process(Vec::new()).unwrap().len(), 0);
}

#[test]
fn structural_parser_keeps_the_order_of_the_batch() {
    let batch = vec![message("{\"log\":\"one\"}"), message("{\"log\":\" two\"}"), message("{\"log\":\"three \"}")];
    let out = Json.process(batch).unwrap();
    let lines: Vec<&str> = out.iter().map(|record| record.log.as_deref().unwrap()).collect();
    assert_eq!(lines, vec!["one", "two", "three"]);
}

#[test]
fn extractor_is_made_from_its_settings() {
    let filter = Regular::create(&parser_conf("(\\w+)\\s+(\\w+)", "level, thread")).unwrap();
    assert_eq!(filter.expression(), "(\\w+)\\s+(\\w+)");
    assert_eq!(filter.mapping(), &vec!["level".to_string(), "thread".to_string()]);
}

#[test]
fn extractor_names_are_split_at_commas_and_trimmed() {
    let filter = Regular::create(&parser_conf("x", " a ,b,, c d ")).unwrap();
    assert_eq!(filter.mapping(), &vec!["a".to_string(), "b".to_string(), "".to_string(), "c d".to_string()]);
    let filter = Regular::create(&parser_conf("x", "")).unwrap();
    assert_eq!(filter.mapping(), &vec!["".to_string()]);
}

#[test]
fn extractor_needs_its_three_settings() {
    let missing = |conf: &Section| match Regular::create(conf) {
        Err(SyncError::MissingParams(message)) => message,
        other => panic!("unexpected {:?}", other.map(|_| ())),
    };
    assert_eq!(missing(&Section::new()), "Environment variable 'parser' could not be found.");
    let mut conf = Section::new();
    conf.insert("parser".to_string(), text("no section"));
    assert_eq!(missing(&conf), "Environment variable 'parser' could not be found.");
    let mut parser = Section::new();
    parser.insert("mapping".to_string(), text("a"));
    let mut conf = Section::new();
    conf.insert("parser".to_string(), CObject::Object(parser));
    assert_eq!(missing(&conf), "Environment variable 'parser.regex' could not be found.");
    let mut parser = Section::new();
    parser.insert("regex".to_string(), text("a"));
    let mut conf = Section::new();
    conf.insert("parser".to_string(), CObject::Object(parser));
    assert_eq!(missing(&conf), "Environment variable 'parser.mapping' could not be found.");
}

#[test]
fn extractor_refuses_an_expression_that_does_not_compile() {
    assert!(matches!(
        Regular::create(&parser_conf("(unclosed", "a")),
        Err(SyncError::RegexError(_))
    ));
}

#[test]
fn extractor_is_made_exactly_when_the_expression_compiles() {
    let expressions = [
        "",
        "a",
        "(\\w+)\\s+(\\w+)",
        "(?P<level>\\w+)",
        "[a-z]+",
        "(",
        ")",
        "[",
        "a{2,1}",
        "\\",
        "*",
        "(?z)",
        "\\w{1000}",
        "(?-u:\\w){1000}",
    ];
    for expression in expressions {
        let made = Regular::create(&parser_conf(expression, "a"));
        assert_eq!(made.is_ok(), regex::Regex::new(expression).is_ok(), "{:?}", expression);
        if let Err(error) = made {
            assert!(matches!(error, SyncError::RegexError(_)));
        }
    }
    assert!(Regular::create(&parser_conf("a", "x")).is_ok());
    assert!(Regular::create(&parser_conf("(", "x")).is_err());
}

#[test]
fn extractor_settings_that_are_no_text_read_as_empty() {
    let mut parser = Section::new();
    parser.insert("regex".to_string(), CObject::Number(1));
    parser.insert("mapping".to_string(), CObject::Null);
    let mut conf = Section::new();
    conf.insert("parser".to_string(), CObject::Object(parser));
    let filter = Regular::create(&conf).unwrap();
    assert_eq!(filter.expression(), "");
    assert_eq!(filter.mapping(), &vec!["".to_string()]);
}

#[test]
fn assembling_turns_the_refusal_of_the_compiler_into_the_failure() {
    let refusal = regex::Regex::new("(").unwrap_err();
    assert!(matches!(
        Regular::assemble(Err::<Pattern, regex::Error>(refusal), "a,b"),
        Err(SyncError::RegexError(_))
    ));
}

#[test]
fn regex_gives_the_groups_without_the_whole_match() {
    let filter = Regular::create(&parser_conf("(\\w+)\\s+(\\w+)", "level,thread")).unwrap();
    assert_eq!(filter.regex("INFO main"), vec!["INFO", "main"]);
    assert_eq!(filter.regex("  WARN   worker-1 rest"), vec!["WARN", "worker"]);
    assert_eq!(filter.regex("single"), Vec::<String>::new());
    assert_eq!(filter.regex(""), Vec::<String>::new());
}

#[test]
fn regex_gives_the_empty_text_for_a_group_that_took_no_part() {
    let filter = Regular::create(&parser_conf("(a)|(b)", "x")).unwrap();
    assert_eq!(filter.regex("b"), vec!["", "b"]);
    assert_eq!(filter.regex("a"), vec!["a", ""]);
}

#[test]
fn regex_without_groups_gives_nothing() {
    let filter = Regular::create(&parser_conf("\\d+", "x")).unwrap();
    assert_eq!(filter.regex("abc 123"), Vec::<String>::new());
}

#[test]
fn extractor_stores_each_group_under_its_name() {
    let filter = Regular::create(&parser_conf("(\\w+)\\s+(\\w+)", "level,thread")).unwrap();
    let out = filter.process(vec![with_attributes(Some("INFO main"), &[("log", "INFO main")])]).unwrap();
    assert_eq!(attribute(&out[0], "level").as_deref(), Some("INFO"));
    assert_eq!(attribute(&out[0], "thread").as_deref(), Some("main"));
    assert_eq!(attribute(&out[0], "log").as_deref(), Some("INFO main"));
    assert_eq!(out[0].map.as_ref().unwrap().len(), 3);
    assert_eq!(out[0].log.as_deref(), Some("INFO main"));
}

#[test]
fn extractor_overwrites_an_attribute_of_the_same_name() {
    let filter = Regular::create(&parser_conf("(\\w+)", "level")).unwrap();
    let out = filter.process(vec![with_attributes(Some("WARN"), &[("level", "old")])]).unwrap();
    assert_eq!(attribute(&out[0], "level").as_deref(), Some("WARN"));
    assert_eq!(out[0].map.as_ref().unwrap().len(), 1);
}

#[test]
fn extractor_takes_the_first_groups_where_there_are_more_than_names() {
    let filter = Regular::create(&parser_conf("(\\w+) (\\w+) (\\w+)", "a,b")).unwrap();
    let out = filter.process(vec![with_attributes(Some("x y z"), &[])]).unwrap();
    assert_eq!(attribute(&out[0], "a").as_deref(), Some("x"));
    assert_eq!(attribute(&out[0], "b").as_deref(), Some("y"));
    assert_eq!(out[0].map.as_ref().unwrap().len(), 2);
}

#[test]
fn extractor_passes_a_line_that_does_not_match() {
    let filter = Regular::create(&parser_conf("(\\d+)-(\\d+)", "from,to")).unwrap();
    let before = with_attributes(Some("no numbers here"), &[("log", "no numbers here"), ("k", "v")]);
    let out = filter.process(vec![before.clone()]).unwrap();
    assert_eq!(out[0].map, before.map);
    assert_eq!(out[0].log, before.log);
    assert_eq!(out[0].body, before.body);
}

#[test]
fn extractor_passes_a_line_with_fewer_groups_than_names() {
    let filter = Regular::create(&parser_conf("(\\w+)", "a,b")).unwrap();
    let before = with_attributes(Some("word"), &[("k", "v")]);
    let out = filter.process(vec![before.clone()]).unwrap();
    assert_eq!(out[0].map, before.map);
}

#[test]
fn extractor_passes_a_record_without_attributes() {
    let filter = Regular::create(&parser_conf("(\\w+)", "a")).unwrap();
    let mut record = message("raw");
    record.log = Some("word".to_string());
    let out = filter.process(vec![record, message("other")]).unwrap();
    assert!(out[0].map.is_none());
    assert_eq!(out[0].log.as_deref(), Some("word"));
    assert!(out[1].map.is_none());
    assert!(out[1].log.is_none());
}

#[test]
fn extractor_fails_the_batch_on_attributes_without_a_log_line() {
    let filter = Regular::create(&parser_conf("(\\w+)", "a")).unwrap();
    let batch = vec![with_attributes(Some("fine"), &[]), with_attributes(None, &[("k", "v")])];
    assert!(matches!(filter.process(batch), Err(SyncError::Option)));
}

#[test]
fn extractor_works_on_each_record_of_the_batch() {
    let filter = Regular::create(&parser_conf("^(\\w+)", "first")).unwrap();
    let batch = vec![
        with_attributes(Some("alpha beta"), &[]),
        with_attributes(Some("!"), &[]),
        with_attributes(Some("gamma"), &[]),
    ];
    let out = filter.process(batch).unwrap();
    assert_eq!(attribute(&out[0], "first").as_deref(), Some("alpha"));
    assert_eq!(attribute(&out[1], "first"), None);
    assert_eq!(attribute(&out[2], "first").as_deref(), Some("gamma"));
}

#[test]
fn parser_then_extractor_fill_the_attributes() {
    let filter = Regular::create(&parser_conf("(\\w+)\\s+(\\w+)", "level,thread")).unwrap();
    let decoded = Json.process(vec![message("{\"log\":\"  INFO main \",\"env\":\"prod\"}")]).unwrap();
    let out = filter.process(decoded).unwrap();
    assert_eq!(out[0].log.as_deref(), Some("INFO main"));
    assert_eq!(attribute(&out[0], "level").as_deref(), Some("INFO"));
    assert_eq!(attribute(&out[0], "thread").as_deref(), Some("main"));
    assert_eq!(attribute(&out[0], "env").as_deref(), Some("prod"));
    assert_eq!(attribute(&out[0], "log").as_deref(), Some("  INFO main "));
}

#[test]
fn test1() -> Result<(), SyncError> {
    let conf = parser_conf(
        "^(\\d{4}-\\d{2}-\\d{2} \\d{2}:\\d{2}:\\d{2})\\.\\d+\\s+(\\w+)\\s+\\[\\s*([^\\]]+)\\]\\s+\\[([^\\]]*)\\]\\s+(\\S+)\\s+:\\s+((?s).*)$",
        "date,level,thread,trace_id,class,message",
    );
    let text = "2024-03-19 19:01:32.737 INFO [                main] [SS.:DD12] org.springframework.data.repository.config.RepositoryConfigurationDelegate : Multiple Spring Data modules found, entering strict repository configuration mode
    at 123441321
    at 12321312321321321";
    let values = Regular::create(&conf)?.regex(text);
    for (index, x) in values.iter().enumerate() {
        println!("[{}] => {}", index, x);
    }
    assert_eq!(values.len(), 6);
    assert_eq!(values[0], "2024-03-19 19:01:32");
    assert_eq!(values[1], "INFO");
    assert_eq!(values[2], "main");
    assert_eq!(values[3], "SS.:DD12");
    assert_eq!(values[4], "org.springframework.data.repository.config.RepositoryConfigurationDelegate");
    assert!(values[5].starts_with("Multiple Spring Data modules found"));
    assert!(values[5].ends_with("at 12321312321321321"));
    Ok(())
}
