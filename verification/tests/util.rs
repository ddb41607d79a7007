use arrow_flight_worker::error::{map_context, status_from_context, ErrorChain};
use arrow_flight_worker::flight_uri::tonic_uri;
use arrow_flight_worker::number::{
    decimal, padded, parse_unsigned, u128_to_i64, u64_to_i64, usize_to_i32, usize_to_i64,
    IntErrorKind,
};
use arrow_flight_worker::path::clean_path;
use arrow_flight_worker::status::Code;
use arrow_flight_worker::text::{
    ascii_lower, contains_char, ends_with, join, replace, split, starts_with, strip_prefix,
    strip_suffix, trim, words,
};
use arrow_flight_worker::util::{
    batch_memory_size, checked_total_size, descriptor_to_object_key, fresh_key,
    normalize_object_key, parse_size, path_from_key, pretty_bytes, throughput, total_size,
    FlightDescriptor,
};

#[test]
fn object_keys_end_in_parquet() {
    assert_eq!(normalize_object_key("a\\b/./../c"), "a/b/c.parquet");
    assert_eq!(normalize_object_key("/a.parquet/"), "a.parquet");
    assert_eq!(fresh_key("id"), "uploads/id.parquet");
}

#[test]
fn normal_keys_stay_as_they_are() {
    for raw in ["x/../y", "a.parquet", "//a b//c.PARQUET"] {
        let key = normalize_object_key(raw);
        assert_eq!(normalize_object_key(&key), key);
        assert_eq!(clean_path(&key), key);
        assert!(key.split('/').all(|part| !part.is_empty() && part != "." && part != ".."));
    }
}

#[test]
fn empty_keys_are_fresh() {
    let (first, second) = (normalize_object_key(""), normalize_object_key("../."));
    assert_ne!(first, second);
    for key in [first, second] {
        let id = key.strip_prefix("uploads/").unwrap().strip_suffix(".parquet").unwrap();
        assert_eq!(id.len(), 36);
        assert_eq!(id.split('-').map(str::len).collect::<Vec<_>>(), [8, 4, 4, 4, 12]);
    }
}

#[test]
fn descriptors_name_keys() {
    let key = |path: &[&str], cmd: &[u8]| {
        descriptor_to_object_key(&Some(FlightDescriptor {
            path: path.iter().map(|part| (*part).to_owned()).collect(),
            cmd: cmd.to_vec(),
        }))
    };
    assert_eq!(key(&["a", "b"], b"c"), "a/b.parquet");
    assert_eq!(key(&[], b"c/d"), "c/d.parquet");
    assert_eq!(key(&[], b"c\xffd"), "c\u{fffd}d.parquet");
    assert!(key(&[], b"").starts_with("uploads/"));
    assert!(descriptor_to_object_key(&None).starts_with("uploads/"));
}

#[test]
fn store_paths_encode_characters() {
    assert_eq!(path_from_key("a/b"), "a/b.parquet");
    assert_eq!(path_from_key("a%/b?"), "a%25/b%3F.parquet");
}

#[test]
fn sizes_have_suffixes() {
    let size = |text: &str| parse_size(text).unwrap();
    assert_eq!(size("17"), 17);
    assert_eq!(size(" 1_000 b "), 1000);
    assert_eq!(size("4k"), 4096);
    assert_eq!(size("2 KiB"), 2048);
    assert_eq!(size("3mb"), 3 << 20);
    assert_eq!(size("5GIB"), 5 << 30);
    assert_eq!(size("1t"), 1 << 40);
}

#[test]
fn bad_sizes_are_explained() {
    let messages = |text: &str| parse_size(text).unwrap_err().messages;
    assert_eq!(
        messages("k"),
        ["invalid size number in \"k\"", "cannot parse integer from empty string"]
    );
    assert_eq!(messages("1\"x"), ["unsupported size suffix \"\\\"x\" in \"1\\\"x\""]);
    assert_eq!(messages("99999999t"), ["size \"99999999t\" overflowed usize"]);
    assert_eq!(
        messages("99999999999999999999"),
        [
            "invalid size number in \"99999999999999999999\"",
            "number too large to fit in target type"
        ]
    );
}

#[test]
fn pretty_sizes_agree_with_floating_point() {
    let expected = |bytes: u64| {
        let units = ["B", "KiB", "MiB", "GiB", "TiB"];
        let mut value = bytes as f64;
        let mut unit = 0;
        while value >= 1024.0 && unit < 4 {
            value /= 1024.0;
            unit += 1;
        }
        if unit == 0 {
            format!("{bytes} {}", units[unit])
        } else {
            format!("{value:.2} {}", units[unit])
        }
    };
    let mut samples: Vec<u64> = vec![0, 1, 1023, 1024, 1029, 1536, 1_048_575, 1_048_576, u64::MAX];
    for shift in 0..64 {
        let power = 1u64 << shift;
        samples.extend([power, power - 1, power + 1, power / 3 * 2, power.wrapping_mul(1_000_003)]);
        samples.push(power / 8 * 13);
    }
    // Two decimals in ties and near the rounding of 64 bits to 53.
    samples.extend([1029, 1034, 1044, 0x1f_ffff_ffff_ffff, 0x20_0000_0000_0001, u64::MAX - 511]);
    for bytes in samples {
        assert_eq!(pretty_bytes(bytes), expected(bytes), "{bytes}");
    }
    assert_eq!(pretty_bytes(1536), "1.50 KiB");
}

#[test]
fn throughput_is_a_size_a_second() {
    assert_eq!(throughput(Some(2048)), "2.00 KiB/s");
    assert_eq!(throughput(None), "inf");
}

#[test]
fn sums_of_sizes() {
    assert_eq!(batch_memory_size(&vec![3, 4]), 7);
    assert_eq!(total_size(&vec![]), 0);
    assert_eq!(total_size(&vec![10, 20, 30]), 60);
    assert_eq!(checked_total_size(&vec![10, 20, 30]), Some(60));
    assert_eq!(checked_total_size(&vec![usize::MAX, 1]), None);
}

#[test]
fn flight_uris_become_http() {
    let uri = |text: &str| tonic_uri(text).map_err(|error| error.one_line());
    assert_eq!(uri(" grpc+tcp://h:1 "), Ok("http://h:1".to_owned()));
    assert_eq!(uri("grpc+tls://h"), Ok("https://h".to_owned()));
    assert_eq!(uri("https://h"), Ok("https://h".to_owned()));
    assert_eq!(uri(" "), Err("Flight URI must not be empty".to_owned()));
    assert_eq!(
        uri("ftp://h"),
        Err(
            "unsupported Flight URI scheme in ftp://h; use grpc+tcp://, grpc+tls://, http://, or https://"
                .to_owned()
        )
    );
}

#[test]
fn error_chains_read_from_the_outside() {
    let chain = ErrorChain::new("inner".to_owned()).context("outer".to_owned());
    assert_eq!(chain.one_line(), "outer: inner");
    let status = status_from_context(chain);
    assert_eq!(status.code, Code::Internal);
    assert_eq!(status.message, "outer: inner");
    assert_eq!(map_context(Ok(3)).unwrap(), 3);
    let failed = map_context::<u8>(Err(ErrorChain::new("bad".to_owned())));
    assert_eq!(failed.unwrap_err().message, "bad");
}

#[test]
fn numbers_in_text() {
    assert_eq!(decimal(0), "0");
    assert_eq!(decimal(u128::MAX), u128::MAX.to_string());
    assert_eq!(padded(7, 5), "00007");
    assert_eq!(padded(123456, 5), "123456");
    assert_eq!(parse_unsigned("+12", 255), Ok(12));
    assert_eq!(parse_unsigned("256", 255), Err(IntErrorKind::PosOverflow));
    assert_eq!(parse_unsigned("", 255), Err(IntErrorKind::Empty));
    assert_eq!(parse_unsigned("-1", 255), Err(IntErrorKind::InvalidDigit));
    assert_eq!(parse_unsigned("+", 255), Err(IntErrorKind::InvalidDigit));
}

#[test]
fn numbers_are_clipped_to_columns() {
    assert_eq!(usize_to_i32(usize::MAX), i32::MAX);
    assert_eq!(usize_to_i64(5), 5);
    assert_eq!(u64_to_i64(u64::MAX), i64::MAX);
    assert_eq!(u128_to_i64(1 << 70), i64::MAX);
}

#[test]
fn text_agrees_with_std() {
    for text in ["", " a b ", "\u{2003}x\u{85}", "a//b/", "ÄB", "a\tb\nc"] {
        assert_eq!(trim(text), text.trim());
        assert_eq!(words(text), text.split_whitespace().collect::<Vec<_>>());
        assert_eq!(ascii_lower(text), text.to_ascii_lowercase());
        assert_eq!(split(text, '/'), text.split('/').collect::<Vec<_>>());
        assert_eq!(replace(text, 'a', "xyz"), text.replace('a', "xyz"));
        assert_eq!(strip_prefix(text, "a").as_deref(), text.strip_prefix("a"));
        assert_eq!(strip_suffix(text, "/").as_deref(), text.strip_suffix("/"));
        assert_eq!(starts_with(text, "a//"), text.starts_with("a//"));
        assert_eq!(ends_with(text, "b"), text.ends_with('b'));
        assert_eq!(contains_char(text, 'b'), text.contains('b'));
        assert_eq!(join(&split(text, '/'), "/"), text);
    }
}
