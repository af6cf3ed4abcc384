use ceefax_weather::app::{
    after_events, assemble, countries_listed, handle_key, next_counter, AppData, AppState,
    ClockTime, Command, Key, ViewState,
};
use ceefax_weather::config::{Cli, Country, Region, REFRESH_INTERVAL_MS};
use ceefax_weather::screens::{
    clock_label, country_list_lines, details_lines, footer_line, header_padding, hourly_lines,
    icon_line, loading_title,
};
use ceefax_weather::wttr::{CurrentCondition, Hourly, WeatherDay, WeatherDesc, WeatherReport};

fn desc(s: &str) -> Vec<WeatherDesc> {
    vec![WeatherDesc { value: s.to_string() }]
}

fn report(temp: &str, description: &str, hours: &[(&str, &str, &str)]) -> WeatherReport {
    WeatherReport {
        current_condition: vec![CurrentCondition {
            temp_C: temp.to_string(),
            FeelsLikeC: "14".to_string(),
            windspeedKmph: "10".to_string(),
            winddir16Point: "W".to_string(),
            precipMM: "0.2".to_string(),
            weatherDesc: desc(description),
        }],
        weather: vec![WeatherDay {
            hourly: hours
                .iter()
                .map(|(t, c, d)| Hourly {
                    time: t.to_string(),
                    tempC: c.to_string(),
                    weatherDesc: desc(d),
                })
                .collect(),
        }],
    }
}

fn two_regions() -> Country {
    Country {
        map_template: vec!["AABB".to_string()],
        regions: vec![
            Region { name: "Wales".to_string(), city: "Cardiff".to_string(), char: 'A', temp_pos: (0, 0) },
            Region { name: "Scotland".to_string(), city: "Edinburgh".to_string(), char: 'B', temp_pos: (2, 0) },
        ],
        left_text: vec![],
        footer_text: String::new(),
    }
}

fn loaded_data() -> AppData {
    assemble(
        two_regions(),
        vec![
            report("15", "Sunny", &[("0", "10", "Clear"), ("300", "12", "Partly cloudy"), ("1500", "18", "Heavy snow")]),
            report("8", "Light rain shower", &[]),
        ],
    )
}

fn loaded(at_ms: u64) -> AppState {
    AppState::Loaded {
        data: loaded_data(),
        updated_at: ClockTime { hour: 9, minute: 5, second: 0 },
        last_fetch_ms: at_ms,
    }
}

#[test]
fn assemble_builds_summaries_and_headlines() {
    let d = loaded_data();
    assert_eq!(d.summaries.len(), 2);
    assert_eq!(d.summaries[0], ("Wales: Sunny".to_string(), "☀"));
    assert_eq!(d.summaries[1], ("Scotland: Light rain shower".to_string(), "🌦"));
    assert_eq!(d.footer_text, ("Sunny".to_string(), "☀"));
    assert_eq!(d.left_text, ("Light rain shower".to_string(), "🌦"));
}

#[test]
fn assemble_skips_reports_without_conditions() {
    let empty = WeatherReport { current_condition: vec![], weather: vec![] };
    let d = assemble(two_regions(), vec![empty, report("8", "Fog", &[])]);
    assert!(d.reports.get(&"Wales".to_string()).is_none());
    assert_eq!(d.summaries.len(), 1);
    assert_eq!(d.footer_text, ("Weather summary unavailable.".to_string(), "?"));
    assert_eq!(d.left_text, ("Fog".to_string(), "🌫"));
}

#[test]
fn hourly_times_are_hours() {
    let d = loaded_data();
    let lines = hourly_lines(&d, 0);
    assert_eq!(lines, vec![
        "".to_string(),
        "  00:00 - 10°C - 🌙 Clear".to_string(),
        "  03:00 - 12°C - ⛅ Partly cloudy".to_string(),
        "  15:00 - 18°C - ❄ Heavy snow".to_string(),
    ]);
    assert_eq!(hourly_lines(&d, 1), vec!["".to_string()]);
}

#[test]
fn hourly_time_with_a_point_reads_as_zero() {
    let d = assemble(
        two_regions(),
        vec![
            report("15", "Sunny", &[("150.0", "9", "Clear"), ("-250", "1", "Fog"), ("12345", "2", "Fog")]),
            report("8", "Fog", &[]),
        ],
    );
    assert_eq!(hourly_lines(&d, 0), vec![
        "".to_string(),
        "  00:00 - 9°C - 🌙 Clear".to_string(),
        "  -2:00 - 1°C - 🌫 Fog".to_string(),
        "  123:00 - 2°C - 🌫 Fog".to_string(),
    ]);
}

#[test]
fn details_list_blocks() {
    let d = loaded_data();
    let lines = details_lines(&d);
    assert_eq!(lines.len(), 12);
    assert_eq!(lines[0].text, "1. -- Wales --");
    assert!(lines[0].heading);
    assert_eq!(lines[1].text, "   ☀ Sunny");
    assert_eq!(lines[2].text, "   Feels Like: 14°C");
    assert_eq!(lines[3].text, "   Wind: W 10 km/h");
    assert_eq!(lines[4].text, "   Precip: 0.2 mm");
    assert_eq!(lines[5].text, " ");
    assert_eq!(lines[6].text, "2. -- Scotland --");
    assert!(!lines[7].heading);
}

#[test]
fn country_selector_lines() {
    let lines = country_list_lines(&vec!["uk".to_string(), "germany".to_string()]);
    assert_eq!(lines, vec!["", "Select Country:", "", "1. uk", "2. germany"]);
}

#[test]
fn country_selector_digit_switches_country() {
    let view = ViewState::SelectCountry { available: vec!["uk".to_string(), "germany".to_string()], scroll: 0 };
    let (_, cmd) = handle_key(&loaded(0), view, Key::Char('2'));
    assert!(matches!(cmd, Command::SwitchCountry(ref n) if n == "germany"));
    let view = ViewState::SelectCountry { available: vec!["uk".to_string()], scroll: 0 };
    let (v, cmd) = handle_key(&loaded(0), view, Key::Char('2'));
    assert!(matches!(cmd, Command::Continue));
    assert!(matches!(v, ViewState::SelectCountry { scroll: 0, .. }));
}

#[test]
fn main_screen_keys() {
    let (v, cmd) = handle_key(&loaded(0), ViewState::Main, Key::Char('d'));
    assert!(matches!(v, ViewState::Details { scroll: 0 }) && matches!(cmd, Command::Continue));
    let (_, cmd) = handle_key(&loaded(0), ViewState::Main, Key::Char('q'));
    assert!(matches!(cmd, Command::Quit));
    let (_, cmd) = handle_key(&loaded(0), ViewState::Main, Key::Esc);
    assert!(matches!(cmd, Command::Quit));
    let (_, cmd) = handle_key(&loaded(0), ViewState::Main, Key::Char('r'));
    assert!(matches!(cmd, Command::Refetch));
    let (_, cmd) = handle_key(&loaded(0), ViewState::Main, Key::Char('c'));
    assert!(matches!(cmd, Command::ListCountries));
    let v = countries_listed(ViewState::Main, Some(vec!["uk".to_string()]));
    assert!(matches!(v, ViewState::SelectCountry { scroll: 0, .. }));
    let v = countries_listed(ViewState::Main, None);
    assert!(matches!(v, ViewState::Main));
}

#[test]
fn details_and_hourly_keys() {
    let (v, _) = handle_key(&loaded(0), ViewState::Details { scroll: 3 }, Key::Up);
    assert!(matches!(v, ViewState::Details { scroll: 2 }));
    let (v, _) = handle_key(&loaded(0), ViewState::Details { scroll: 0 }, Key::Up);
    assert!(matches!(v, ViewState::Details { scroll: 0 }));
    let (v, _) = handle_key(&loaded(0), ViewState::Details { scroll: u16::MAX }, Key::Down);
    assert!(matches!(v, ViewState::Details { scroll: u16::MAX }));
    let (v, _) = handle_key(&loaded(0), ViewState::Details { scroll: 0 }, Key::Char('2'));
    assert!(matches!(v, ViewState::Hourly { region_index: 1, scroll: 0 }));
    let (v, _) = handle_key(&loaded(0), ViewState::Details { scroll: 0 }, Key::Char('3'));
    assert!(matches!(v, ViewState::Details { scroll: 0 }));
    let (v, _) = handle_key(&loaded(0), ViewState::Details { scroll: 0 }, Key::Char('0'));
    assert!(matches!(v, ViewState::Details { scroll: 0 }));
    let (v, cmd) = handle_key(&loaded(0), ViewState::Details { scroll: 4 }, Key::Esc);
    assert!(matches!(v, ViewState::Main) && matches!(cmd, Command::Continue));
    let (v, _) = handle_key(&loaded(0), ViewState::Hourly { region_index: 1, scroll: 0 }, Key::Down);
    assert!(matches!(v, ViewState::Hourly { region_index: 1, scroll: 1 }));
    let (v, _) = handle_key(&loaded(0), ViewState::Hourly { region_index: 1, scroll: 5 }, Key::Char('d'));
    assert!(matches!(v, ViewState::Details { scroll: 0 }));
}

#[test]
fn loading_and_error_keys() {
    let (_, cmd) = handle_key(&AppState::Loading, ViewState::Main, Key::Char('d'));
    assert!(matches!(cmd, Command::Continue));
    let (_, cmd) = handle_key(&AppState::Loading, ViewState::Main, Key::Esc);
    assert!(matches!(cmd, Command::Quit));
    let err = AppState::Error("boom".to_string());
    let (_, cmd) = handle_key(&err, ViewState::Main, Key::Char('r'));
    assert!(matches!(cmd, Command::Refetch));
    let (_, cmd) = handle_key(&err, ViewState::Main, Key::Char('q'));
    assert!(matches!(cmd, Command::Quit));
}

#[test]
fn received_result_moves_loading_on() {
    let now = ClockTime { hour: 10, minute: 0, second: 7 };
    let (s, fetch) = after_events(AppState::Loading, Some(Ok(loaded_data())), now, 1000);
    assert!(!fetch);
    assert!(matches!(s, AppState::Loaded { last_fetch_ms: 1000, updated_at: ClockTime { hour: 10, minute: 0, second: 7 }, .. }));
    let (s, fetch) = after_events(AppState::Loading, Some(Err("down".to_string())), now, 1000);
    assert!(!fetch);
    assert!(matches!(s, AppState::Error(ref e) if e == "down"));
    let (s, _) = after_events(AppState::Loading, None, now, 1000);
    assert!(matches!(s, AppState::Loading));
}

#[test]
fn stale_data_is_refetched() {
    let now = ClockTime { hour: 10, minute: 0, second: 0 };
    let (s, fetch) = after_events(loaded(0), None, now, REFRESH_INTERVAL_MS);
    assert!(!fetch);
    assert!(matches!(s, AppState::Loaded { .. }));
    let (s, fetch) = after_events(loaded(0), None, now, REFRESH_INTERVAL_MS + 1);
    assert!(fetch);
    assert!(matches!(s, AppState::Loading));
    let (s, fetch) = after_events(loaded(5000), None, now, 10);
    assert!(!fetch);
    assert!(matches!(s, AppState::Loaded { .. }));
}

#[test]
fn late_result_is_dropped() {
    let now = ClockTime { hour: 10, minute: 0, second: 0 };
    let (s, fetch) = after_events(AppState::Error("x".to_string()), Some(Ok(loaded_data())), now, 5);
    assert!(!fetch);
    assert!(matches!(s, AppState::Error(_)));
}

#[test]
fn counter_wraps() {
    assert_eq!(next_counter(100), 101);
    assert_eq!(next_counter(898), 899);
    assert_eq!(next_counter(899), 100);
    assert_eq!(next_counter(99), 100);
    assert_eq!(next_counter(65534), 735);
}

#[test]
fn header_texts() {
    assert_eq!(header_padding(80, 15, 10, 8), 44);
    assert_eq!(header_padding(36, 15, 10, 8), 0);
    assert_eq!(header_padding(37, 15, 10, 8), 1);
    assert_eq!(header_padding(10, usize::MAX, 1, 1), 0);
    assert_eq!(loading_title(100), "P100 SEARCHING...");
    assert_eq!(loading_title(899), "P899 SEARCHING...");
    assert_eq!(icon_line("☀", "Sunny"), "☀ Sunny");
    assert_eq!(clock_label(ClockTime { hour: 9, minute: 5, second: 30 }), "09:05:30");
    assert_eq!(
        footer_line(ClockTime { hour: 23, minute: 0, second: 1 }, "🌧", "Rain"),
        "[C]ountry [D]etails [R]efresh      Updated: 23:00:01      🌧 Rain"
    );
}

#[test]
fn default_country_is_uk() {
    assert_eq!(Cli::new().country, "uk");
}
