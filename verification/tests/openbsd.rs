use statusline::number::ParseError;
use statusline::openbsd::{
    _battery_one, battery_all, battery_percent, battery_request, battery_status, battery_summary,
    time_remaining, wifi, wifi_request, Error,
};
use statusline::system::{Request, Response};

fn output(text: &str) -> Response {
    Response::Output(text.as_bytes().to_vec())
}

fn is_hour_minute(text: &str) -> bool {
    let bytes = text.as_bytes();
    bytes.len() == 5
        && bytes[2] == b':'
        && [0, 1, 3, 4].iter().all(|&i| bytes[i].is_ascii_digit())
        && text[0..2].parse::<u32>().unwrap() < 24
        && text[3..5].parse::<u32>().unwrap() < 60
}

#[test]
fn power_status_codes() {
    assert_eq!(battery_status("0"), Ok("Disconnected".to_string()));
    assert_eq!(battery_status("1"), Ok("Connected".to_string()));
    assert_eq!(battery_status("2"), Ok("Backup".to_string()));
    assert_eq!(battery_status("3"), Ok("Unknown".to_string()));
    assert_eq!(battery_status("255"), Ok("Unknown".to_string()));
    assert_eq!(battery_status(""), Ok("Unknown".to_string()));
    assert_eq!(battery_status("01"), Ok("Unknown".to_string()));
}

#[test]
fn power_status_code_is_trimmed() {
    assert_eq!(battery_status(" 1\n"), Ok("Connected".to_string()));
    assert_eq!(battery_status("\t0 "), Ok("Disconnected".to_string()));
    assert_eq!(battery_status("1 0"), Ok("Unknown".to_string()));
}

#[test]
fn percent_is_parsed() {
    assert_eq!(battery_percent("73"), Ok(73));
    assert_eq!(battery_percent(" 100\n"), Ok(100));
    assert_eq!(battery_percent("-1"), Ok(-1));
    assert_eq!(battery_percent("+7"), Ok(7));
}

#[test]
fn percent_that_is_no_number() {
    assert_eq!(battery_percent(""), Err(Error::Parse(ParseError::Empty)));
    assert_eq!(battery_percent("  "), Err(Error::Parse(ParseError::Empty)));
    assert_eq!(battery_percent("7 3"), Err(Error::Parse(ParseError::InvalidDigit)));
    assert_eq!(battery_percent("73%"), Err(Error::Parse(ParseError::InvalidDigit)));
    assert_eq!(battery_percent("4294967296"), Err(Error::Parse(ParseError::PosOverflow)));
    assert_eq!(battery_percent("-4294967296"), Err(Error::Parse(ParseError::NegOverflow)));
}

#[test]
fn error_messages() {
    for text in ["", "x", "99999999999", "-99999999999"] {
        let expected = text.parse::<i32>().unwrap_err().to_string();
        assert_eq!(battery_percent(text).unwrap_err().message(), expected);
    }
    assert_eq!(Error::Utf8("bad bytes".to_string()).message(), "bad bytes");
    assert_eq!(Error::Io("not found".to_string()).message(), "not found");
    assert_eq!(Error::Clock.message(), "local time out of range");
}

#[test]
fn battery_report_request() {
    assert_eq!(
        battery_request(),
        Request::Run(
            "apm".to_string(),
            vec!["-a".to_string(), "-m".to_string(), "-l".to_string()]
        )
    );
}

#[test]
fn battery_report_is_split_into_values() {
    assert_eq!(
        _battery_one(output("73\n125\n0\n")),
        Ok(vec!["73".to_string(), "125".to_string(), "0".to_string()])
    );
    assert_eq!(
        _battery_one(output("\n 73\nunknown\n1 \n\n")),
        Ok(vec!["73".to_string(), "unknown".to_string(), "1".to_string()])
    );
    assert_eq!(_battery_one(output("")), Ok(vec!["".to_string()]));
    assert_eq!(
        _battery_one(output("a\n\nb")),
        Ok(vec!["a".to_string(), "".to_string(), "b".to_string()])
    );
}

#[test]
fn battery_report_failures() {
    let error = String::from_utf8(vec![0xc3]).unwrap_err().to_string();
    assert_eq!(_battery_one(Response::Output(vec![0xc3])), Err(Error::Utf8(error)));
    assert_eq!(
        _battery_one(Response::Failed("No such file or directory (os error 2)".to_string())),
        Err(Error::Io("No such file or directory (os error 2)".to_string()))
    );
    assert_eq!(
        _battery_one(Response::Contents("73".to_string())),
        Err(Error::Io("unexpected response".to_string()))
    );
}

#[test]
fn time_remaining_is_a_time_of_day() {
    let samples = ["0", "90", " 125\n", "1439", "1440", "100000", "-30", "-1000000", "5000000"];
    for minutes in samples {
        let text = time_remaining(minutes).unwrap();
        assert!(is_hour_minute(&text), "{:?} gave {:?}", minutes, text);
    }
}

#[test]
fn time_remaining_of_no_number() {
    assert_eq!(time_remaining("unknown"), Err(Error::Parse(ParseError::InvalidDigit)));
    assert_eq!(time_remaining(""), Err(Error::Parse(ParseError::Empty)));
    assert_eq!(
        time_remaining("9223372036854775808"),
        Err(Error::Parse(ParseError::PosOverflow))
    );
}

#[test]
fn time_remaining_beyond_the_calendar() {
    assert_eq!(time_remaining("9223372036854775807"), Err(Error::Clock));
    assert_eq!(time_remaining("-9223372036854775808"), Err(Error::Clock));
    assert_eq!(time_remaining("150000000000"), Err(Error::Clock));
}

#[test]
fn summary_with_all_parts() {
    let text = battery_summary(&Ok(73), &Ok("Disconnected".to_string()), &Some("02:05".to_string()));
    assert_eq!(text, "73% [Disconnected: 02:05]");
}

#[test]
fn summary_without_time() {
    let text = battery_summary(&Ok(100), &Ok("Connected".to_string()), &None);
    assert_eq!(text, "100% [Connected]");
}

#[test]
fn summary_with_errors() {
    let text = battery_summary(
        &Err(Error::Parse(ParseError::InvalidDigit)),
        &Err(Error::Io("gone".to_string())),
        &Some("02:05".to_string()),
    );
    assert_eq!(text, "Capacity: invalid digit found in string [Status: gone]");
    let text = battery_summary(&Ok(-5), &Ok("Backup".to_string()), &None);
    assert_eq!(text, "-5% [Backup]");
}

#[test]
fn battery_all_from_a_report() {
    let text = battery_all(&_battery_one(output("73\n125\n0\n"))).unwrap();
    assert!(text.starts_with("73% [Disconnected: "), "{:?}", text);
    assert!(text.ends_with("]"));
    let time = &text["73% [Disconnected: ".len()..text.len() - 1];
    assert!(is_hour_minute(time), "{:?}", text);
}

#[test]
fn battery_all_without_time() {
    assert_eq!(
        battery_all(&_battery_one(output("73\nunknown\n1\n"))),
        Some("73% [Connected]".to_string())
    );
    let values = vec![" 100 ".to_string(), "".to_string(), "1\n".to_string(), "more".to_string()];
    assert_eq!(battery_all(&Ok(values)), Some("100% [Connected]".to_string()));
}

#[test]
fn battery_all_with_bad_percent() {
    assert_eq!(
        battery_all(&_battery_one(output("n/a\nunknown\n2\n"))),
        Some("Capacity: invalid digit found in string [Backup]".to_string())
    );
    assert_eq!(
        battery_all(&_battery_one(output("\n\nx\ny\n9"))),
        Some("Capacity: invalid digit found in string [Unknown]".to_string())
    );
}

#[test]
fn battery_all_shows_a_failed_report() {
    assert_eq!(
        battery_all(&_battery_one(Response::Failed("not found".to_string()))),
        Some("Battery: not found".to_string())
    );
    let error = String::from_utf8(vec![0xff]).unwrap_err().to_string();
    assert_eq!(
        battery_all(&_battery_one(Response::Output(vec![0xff]))),
        Some(format!("Battery: {}", error))
    );
    assert_eq!(
        battery_all(&_battery_one(Response::Contents("73".to_string()))),
        Some("Battery: unexpected response".to_string())
    );
    assert_eq!(
        battery_all(&Err(Error::Clock)),
        Some("Battery: local time out of range".to_string())
    );
    assert_eq!(
        battery_all(&Err(Error::Parse(ParseError::Empty))),
        Some("Battery: cannot parse integer from empty string".to_string())
    );
}

#[test]
fn battery_all_of_a_short_report() {
    assert_eq!(
        battery_all(&_battery_one(output(""))),
        Some("Capacity: cannot parse integer from empty string [Unknown]".to_string())
    );
    assert_eq!(battery_all(&_battery_one(output("73\n"))), Some("73% [Unknown]".to_string()));
    assert_eq!(
        battery_all(&Ok(Vec::new())),
        Some("Capacity: cannot parse integer from empty string [Unknown]".to_string())
    );
    let text = battery_all(&_battery_one(output("73\n125\n"))).unwrap();
    assert!(text.starts_with("73% [Unknown: "), "{:?}", text);
    assert!(is_hour_minute(&text["73% [Unknown: ".len()..text.len() - 1]), "{:?}", text);
}

#[test]
fn wifi_report_request() {
    assert_eq!(wifi_request("iwm0"), Request::Run("ifconfig".to_string(), vec!["iwm0".to_string()]));
}

const IFCONFIG: &str = "iwm0: flags=8843<UP,BROADCAST,RUNNING,SIMPLEX,MULTICAST> mtu 1500\n\tlladdr 00:11:22:33:44:55\n\tindex 1 priority 4 llprio 3\n\tgroups: wlan egress\n\tmedia: IEEE802.11 autoselect (HT-MCS15 mode 11n)\n\tstatus: active\n\tieee80211: join MyNetwork chan 6 bssid 66:77:88:99:aa:bb 68% wpakey wpaprotos wpa2\n\tinet 192.168.1.7 netmask 0xffffff00 broadcast 192.168.1.255\n";

#[test]
fn wifi_of_an_active_interface() {
    assert_eq!(wifi(output(IFCONFIG)), Ok("MyNetwork".to_string()));
}

#[test]
fn wifi_of_an_interface_that_is_down() {
    let report = IFCONFIG.replace("status: active", "status: no network");
    assert_eq!(wifi(output(&report)), Ok("WiFi: Down".to_string()));
    assert_eq!(wifi(output("")), Ok("WiFi: Down".to_string()));
    assert_eq!(wifi(output("\tstatus: active\n")), Ok("WiFi: Down".to_string()));
    assert_eq!(wifi(output("\tieee80211: join MyNetwork chan 6\n")), Ok("WiFi: Down".to_string()));
}

#[test]
fn wifi_name_ends_at_the_first_space() {
    assert_eq!(
        wifi(output("status: active\nieee80211: join Net \n")),
        Ok("WiFi: Down".to_string())
    );
    assert_eq!(
        wifi(output("status: active\nieee80211: join Net x\n")),
        Ok("Net".to_string())
    );
    assert_eq!(
        wifi(output("status: active\nieee80211: join  x\n")),
        Ok("WiFi: Down".to_string())
    );
}

#[test]
fn wifi_takes_the_last_lines() {
    let report = "status: no network\nieee80211: join One x\nieee80211: join Two x\nstatus: active\n";
    assert_eq!(wifi(output(report)), Ok("Two".to_string()));
    let report = "status: active\nieee80211: join One x\nieee80211: join Two\n";
    assert_eq!(wifi(output(report)), Ok("WiFi: Down".to_string()));
}

#[test]
fn wifi_failures() {
    let error = String::from_utf8(vec![0x80]).unwrap_err().to_string();
    assert_eq!(wifi(Response::Output(vec![0x80])), Err(Error::Utf8(error)));
    assert_eq!(
        wifi(Response::Failed("No such file or directory (os error 2)".to_string())),
        Err(Error::Io("No such file or directory (os error 2)".to_string()))
    );
    assert_eq!(
        wifi(Response::Listing(Vec::new())),
        Err(Error::Io("unexpected response".to_string()))
    );
}
