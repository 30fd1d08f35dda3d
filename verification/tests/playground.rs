use psl::playground::date::Date;
use psl::playground::enum_adt::{either_err, either_ok, either_to_string, Either};
use psl::playground::enum_c::{enum_from_string, enum_to_string, provider_from_lowercase, DbProvider};
use psl::playground::event::EventBuilder;
use psl::playground::map::{comes_before, top_frequent, Index};
use psl::playground::scalars::{get_letter, new_scalars};
use psl::playground::{inc_biguint, inc_byte, inc_int, inc_int_maybe, inc_int_or_fail, inc_uint};

#[test]
fn enum_to_string_example() {
    let result = enum_to_string(DbProvider::Postgres);
    assert_eq!(result, "postgres");

    let result = enum_to_string(DbProvider::MySQL);
    assert_eq!(result, "mysql");

    let result = enum_to_string(DbProvider::SQLite);
    assert_eq!(result, "sqlite");
}

#[test]
fn enum_from_string_example() {
    let result = enum_from_string("postgres".to_owned());
    assert_eq!(result.unwrap(), DbProvider::Postgres);

    let result = enum_from_string("mysql".to_owned());
    assert_eq!(result.unwrap(), DbProvider::MySQL);

    let result = enum_from_string("sqlite".to_owned());
    assert_eq!(result.unwrap(), DbProvider::SQLite);

    let result = enum_from_string("lmao".to_owned());
    assert_eq!(
        result.unwrap_err(),
        "Unknown database provider: lmao".to_owned()
    );
}

#[test]
fn fmt_italian_test() {
    let date = Date::new(2023, 11, 19);
    assert_eq!(date.fmt_italian(), "19/11/2023");
}

#[test]
fn enum_from_string_ignores_case() {
    assert_eq!(enum_from_string("PostGres".to_owned()).unwrap(), DbProvider::Postgres);
    assert_eq!(enum_from_string("MYSQL".to_owned()).unwrap(), DbProvider::MySQL);
    assert_eq!(
        enum_from_string("Oracle".to_owned()).unwrap_err(),
        "Unknown database provider: Oracle"
    );
}

#[test]
fn provider_from_lowercase_keeps_the_label_in_the_error() {
    assert_eq!(provider_from_lowercase("sqlite", "SQLite").unwrap(), DbProvider::SQLite);
    assert_eq!(
        provider_from_lowercase("sqlite3", "SQLite3").unwrap_err(),
        "Unknown database provider: SQLite3"
    );
    assert!("postgres".parse::<DbProvider>().is_ok());
}

#[test]
fn fmt_italian_pads_with_zeros() {
    assert_eq!(Date::new(7, 3, 1).fmt_italian(), "01/03/0007");
    assert_eq!(Date::new(65535, 255, 255).fmt_italian(), "255/255/65535");
    assert_eq!(Date::new(0, 0, 0).fmt_italian(), "00/00/0000");
}

#[test]
fn increments() {
    assert_eq!(inc_biguint(41), 42);
    assert_eq!(inc_uint(0), 1);
    assert_eq!(inc_int(-1), 0);
    assert_eq!(inc_byte(254), 255);
    assert_eq!(inc_int_maybe(Some(9)), Some(10));
    assert_eq!(inc_int_maybe(None), None);
    assert_eq!(inc_int_or_fail(Some(-5)), Ok(-4));
    assert_eq!(inc_int_or_fail(None), Err("No value provided".to_string()));
}

#[test]
fn scalars_keep_their_fields() {
    let scalars = new_scalars(1, 2, 'x', true);
    assert_eq!(scalars.n, 1);
    assert_eq!(scalars.id, 2);
    assert!(scalars.toggle);
    assert_eq!(get_letter(scalars), 'x');
}

#[test]
fn event_builder_defaults_to_2023() {
    let event = EventBuilder::new("EuroRust".to_string()).build();
    assert_eq!(event.name, "EuroRust");
    assert_eq!(event.year, 2023);

    let mut builder = EventBuilder::new("RustFest".to_string());
    builder.with_year(2019);
    let event = builder.build();
    assert_eq!(event.name, "RustFest");
    assert_eq!(event.year, 2019);
}

#[test]
fn either_as_text() {
    assert_eq!(either_to_string(either_ok(42)), "Ok(42)");
    assert_eq!(either_to_string(either_ok(-7)), "Ok(-7)");
    assert_eq!(either_to_string(either_ok(i32::MIN)), "Ok(-2147483648)");
    assert_eq!(either_to_string(either_ok(0)), "Ok(0)");
    assert_eq!(either_to_string(either_err("boom".to_string())), "Err(boom)");
    assert_eq!(Either::Success(5).to_string_method(), "Ok(5)");
}

#[test]
fn index_top_frequent_test() {
    let mut frequency_map: Vec<(String, u32)> = Vec::new();
    frequency_map.push(("Python".into(), 3));
    frequency_map.push(("Rust".into(), 10));
    frequency_map.push(("TypeScript".into(), 8));
    frequency_map.push(("Golang".into(), 6));
    frequency_map.push(("WebAssembly".into(), 9));

    let index = Index { frequency_map };

    let top_3 = top_frequent(index, 3).data;
    assert_eq!(top_3, vec!["Rust", "WebAssembly", "TypeScript"]);
}

#[test]
fn top_frequent_orders_words_of_one_frequency_and_stops_at_the_end() {
    let entries = |list: &[(&str, u32)]| Index {
        frequency_map: list.iter().map(|(w, f)| (w.to_string(), *f)).collect(),
    };
    let index = entries(&[("b", 2), ("a", 2), ("ab", 2), ("z", 1), ("", 2), ("\u{e9}", 2)]);
    assert_eq!(top_frequent(index, 10).data, vec!["\u{e9}", "b", "ab", "a", "", "z"]);
    assert_eq!(top_frequent(entries(&[("a", 1), ("b", 2)]), 0).data, Vec::<String>::new());
    assert_eq!(top_frequent(entries(&[]), 3).data, Vec::<String>::new());
    assert_eq!(top_frequent(entries(&[("a", 1), ("a", 1), ("b", 0)]), 2).data, vec!["a", "a"]);
    let mut words = vec!["b", "a", "ab", "", "\u{e9}", "B", "abc", "\u{1f600}"];
    words.sort();
    for (i, x) in words.iter().enumerate() {
        for (j, y) in words.iter().enumerate() {
            assert_eq!(comes_before(x, y), i < j, "{:?} before {:?}", x, y);
        }
    }
}
