use statusline::config::Config;
use statusline::outcome::Outcome;
use statusline::pipeline::{add_modules, render, status_line, Module, Reading};

fn present(text: &str) -> Outcome {
    Outcome::Present(text.to_string())
}

fn failed(text: &str) -> Outcome {
    Outcome::Failed(text.to_string())
}

fn texts(list: &[&str]) -> Vec<String> {
    list.iter().map(|text| text.to_string()).collect()
}

fn battery() -> Reading {
    Reading::BatteryAll(present("73"), present("Discharging"))
}

fn wifi() -> Reading {
    Reading::Wifi(present("MyNetwork"))
}

fn clock() -> Reading {
    Reading::Time("Jan 05  3:07 PM".to_string())
}

#[test]
fn fragments_follow_the_order_of_the_modules() {
    assert_eq!(
        add_modules(&vec![battery(), wifi(), clock()]),
        texts(&["73% [Discharging]", "MyNetwork", "Jan 05  3:07 PM"])
    );
    assert_eq!(
        add_modules(&vec![clock(), wifi(), battery()]),
        texts(&["Jan 05  3:07 PM", "MyNetwork", "73% [Discharging]"])
    );
    assert_eq!(
        add_modules(&vec![wifi(), battery(), clock()]),
        texts(&["MyNetwork", "73% [Discharging]", "Jan 05  3:07 PM"])
    );
    assert_eq!(
        add_modules(&vec![wifi(), clock(), battery()]),
        texts(&["MyNetwork", "Jan 05  3:07 PM", "73% [Discharging]"])
    );
}

#[test]
fn repeated_modules_are_shown_each_time() {
    assert_eq!(
        add_modules(&vec![clock(), wifi(), clock()]),
        texts(&["Jan 05  3:07 PM", "MyNetwork", "Jan 05  3:07 PM"])
    );
}

#[test]
fn absent_reading_adds_no_fragment() {
    let readings = vec![
        Reading::BatteryAll(Outcome::Absent, Outcome::Absent),
        wifi(),
        Reading::BatteryCapacity(Outcome::Absent),
        clock(),
        Reading::Wifi(Outcome::Absent),
    ];
    assert_eq!(add_modules(&readings), texts(&["MyNetwork", "Jan 05  3:07 PM"]));
}

#[test]
fn absent_reading_adds_no_separator() {
    let with = vec![battery(), Reading::Wifi(Outcome::Absent), clock()];
    let without = vec![battery(), clock()];
    assert_eq!(status_line(&add_modules(&with), " | "), status_line(&add_modules(&without), " | "));
    assert_eq!(
        status_line(&add_modules(&with), " | "),
        " 73% [Discharging] | Jan 05  3:07 PM "
    );
}

#[test]
fn all_absent_gives_the_placeholder() {
    let readings = vec![
        Reading::BatteryAll(Outcome::Absent, Outcome::Absent),
        Reading::Wifi(Outcome::Absent),
        Reading::BatteryStatus(Outcome::Absent),
    ];
    assert_eq!(add_modules(&readings), Vec::<String>::new());
    assert_eq!(status_line(&add_modules(&readings), " \u{b7} "), "Status: Empty");
}

#[test]
fn no_module_gives_the_placeholder() {
    assert_eq!(status_line(&Vec::new(), " \u{b7} "), "Status: Empty");
    assert_eq!(status_line(&add_modules(&Vec::new()), ""), "Status: Empty");
}

#[test]
fn line_has_one_separator_less_than_fragments() {
    assert_eq!(status_line(&texts(&["a"]), "--"), " a ");
    assert_eq!(status_line(&texts(&["a", "b"]), "--"), " a--b ");
    assert_eq!(status_line(&texts(&["a", "b", "c"]), "--"), " a--b--c ");
    for count in 1..6usize {
        let fragments = vec!["x".to_string(); count];
        let line = status_line(&fragments, "--");
        assert_eq!(line.matches("--").count(), count - 1);
        assert_eq!(line.len(), 2 + count + 2 * (count - 1));
    }
}

#[test]
fn line_of_the_standard_configuration() {
    let config = Config::standard();
    let fragments = add_modules(&vec![battery(), wifi(), clock()]);
    assert_eq!(
        status_line(&fragments, &config.separator),
        " 73% [Discharging] \u{b7} MyNetwork \u{b7} Jan 05  3:07 PM "
    );
}

#[test]
fn line_keeps_an_empty_fragment() {
    assert_eq!(status_line(&texts(&[""]), "--"), "  ");
    assert_eq!(status_line(&texts(&["a", "", "b"]), "--"), " a----b ");
    assert_eq!(add_modules(&vec![Reading::BatteryCapacity(present(""))]), texts(&[""]));
}

#[test]
fn line_with_empty_separator() {
    assert_eq!(status_line(&texts(&["a", "b"]), ""), " ab ");
}

#[test]
fn failures_are_shown_in_the_line() {
    assert_eq!(render(&Reading::Wifi(failed("boom"))), Some("WiFi: boom".to_string()));
    assert_eq!(render(&Reading::BatteryCapacity(failed("boom"))), Some("boom".to_string()));
    assert_eq!(render(&Reading::BatteryStatus(failed("boom"))), Some("boom".to_string()));
    assert_eq!(
        render(&Reading::BatteryAll(failed("boom"), Outcome::Absent)),
        Some("Capacity: boom ".to_string())
    );
}

#[test]
fn single_values_are_shown_as_they_are() {
    assert_eq!(render(&Reading::BatteryCapacity(present("73"))), Some("73".to_string()));
    assert_eq!(render(&Reading::BatteryStatus(present("Full"))), Some("Full".to_string()));
    assert_eq!(render(&Reading::Wifi(present("Net"))), Some("Net".to_string()));
    assert_eq!(render(&Reading::Time("now".to_string())), Some("now".to_string()));
    assert_eq!(render(&Reading::BatteryCapacity(Outcome::Absent)), None);
    assert_eq!(render(&Reading::BatteryStatus(Outcome::Absent)), None);
    assert_eq!(render(&Reading::Wifi(Outcome::Absent)), None);
}

#[test]
fn standard_configuration() {
    let config = Config::standard();
    assert_eq!(config.battery_name, None);
    assert_eq!(config.wifi_device, None);
    assert_eq!(config.separator, " \u{b7} ");
    assert_eq!(config.modules, vec![Module::BatteryAll, Module::Wifi, Module::Time]);
}

#[test]
fn modules_by_name() {
    assert_eq!(Module::named("battery_capacity"), Some(Module::BatteryCapacity));
    assert_eq!(Module::named("battery_status"), Some(Module::BatteryStatus));
    assert_eq!(Module::named("battery_all"), Some(Module::BatteryAll));
    assert_eq!(Module::named("wifi"), Some(Module::Wifi));
    assert_eq!(Module::named("time"), Some(Module::Time));
    assert_eq!(Module::named("Time"), None);
    assert_eq!(Module::named("time "), None);
    assert_eq!(Module::named(""), None);
    assert_eq!(Module::named("volume"), None);
}

#[test]
fn unknown_module_names_are_passed_over() {
    assert_eq!(
        Module::all_named(&vec!["battery_all", "wifi", "time"]),
        vec![Module::BatteryAll, Module::Wifi, Module::Time]
    );
    assert_eq!(
        Module::all_named(&vec!["time", "volume", "", "wifi", "time", "battery"]),
        vec![Module::Time, Module::Wifi, Module::Time]
    );
    assert_eq!(Module::all_named(&vec!["volume"]), Vec::new());
    assert_eq!(Module::all_named(&Vec::new()), Vec::new());
}
