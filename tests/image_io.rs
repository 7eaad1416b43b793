use pathtracer::image_io::{parse_i32, pfm_dimensions, sample_from_capture, has_file_name, Error};
use pathtracer::{add_suffix, parse_sample};

#[test]
fn test_add_suffix() {
    assert_eq!(
        add_suffix("c:\\path\\file.txt", "_test"),
        "c:\\path\\file_test.txt"
    );
    assert_eq!(
        add_suffix("c:\\path\\test", "_test"),
        "c:\\path\\test_test"
    );
}

#[test]
fn add_suffix_keeps_directories() {
    assert_eq!(add_suffix("out/render.pfm", "_12spp"), "out/render_12spp.pfm");
    assert_eq!(add_suffix("/tmp/a/b.c", "_x"), "/tmp/a/b_x.c");
    assert_eq!(add_suffix("plain", "_x"), "plain_x");
}

#[test]
fn add_suffix_on_dotted_names() {
    assert_eq!(add_suffix("dir/.hidden", "_x"), "dir/.hidden_x");
    assert_eq!(add_suffix("file.", "_x"), "file_x");
    assert_eq!(add_suffix("a.b.txt", "_x"), "a.txt");
    assert_eq!(add_suffix("image.pfm", ".v2"), "image.pfm");
}

#[test]
fn test_parse() {
    assert_eq!(parse_sample("output_12spp.pfm"), Some(12));
    assert_eq!(parse_sample("output_1spp.pfm"), Some(1));
    assert_eq!(parse_sample("test_01spp.pfm"), Some(1));
    assert_eq!(parse_sample("output_spp.pfm"), None);
    assert_eq!(parse_sample("output_15pps.pfm"), None);
}

#[test]
fn parse_sample_takes_first_tag() {
    assert_eq!(parse_sample("a_3spp_b_4spp.pfm"), Some(3));
    assert_eq!(parse_sample("a_99999999999spp.pfm"), None);
    assert_eq!(parse_sample("render_2147483647spp"), Some(2147483647));
}

#[test]
fn sample_from_capture_parses_digits() {
    assert_eq!(sample_from_capture(Some("12")), Some(12));
    assert_eq!(sample_from_capture(Some("007")), Some(7));
    assert_eq!(sample_from_capture(Some("2147483648")), None);
    assert_eq!(sample_from_capture(None), None);
}

#[test]
fn parse_i32_follows_decimal_rules() {
    assert_eq!(parse_i32("0"), Some(0));
    assert_eq!(parse_i32("+15"), Some(15));
    assert_eq!(parse_i32("-15"), Some(-15));
    assert_eq!(parse_i32("-2147483648"), Some(i32::MIN));
    assert_eq!(parse_i32("2147483647"), Some(i32::MAX));
    assert_eq!(parse_i32("2147483648"), None);
    assert_eq!(parse_i32("-2147483649"), None);
    assert_eq!(parse_i32(""), None);
    assert_eq!(parse_i32("-"), None);
    assert_eq!(parse_i32("+"), None);
    assert_eq!(parse_i32("12a"), None);
    assert_eq!(parse_i32(" 1"), None);
    for s in ["5", "-77", "123456", "+0", "99999999999", "1x"] {
        assert_eq!(parse_i32(s), s.parse::<i32>().ok());
    }
}

#[test]
fn error_messages() {
    assert_eq!(
        Error::FormatError("Invalid header".to_string()).message(),
        "Invalid format: Invalid header"
    );
    assert_eq!(Error::IoError("missing".to_string()).message(), "IO error: missing");
    assert!(Error::FormatError("a".to_string()) < Error::IoError("a".to_string()));
}

fn std_add_suffix(path: &str, suffix: &str) -> String {
    let path = std::path::Path::new(path);
    let new_name = format!("{}{}", path.file_stem().unwrap().to_str().unwrap(), suffix);
    let mut result = path.to_owned();
    result.set_file_name(new_name);
    if let Some(ext) = path.extension() {
        result.set_extension(ext);
    }
    result.to_str().unwrap().to_owned()
}

#[test]
fn file_name_presence() {
    assert!(has_file_name("c:\\path\\file.txt"));
    assert!(has_file_name("./out/a.pfm"));
    assert!(has_file_name("out/"));
    assert!(has_file_name("a/."));
    assert!(has_file_name("..."));
    assert!(!has_file_name(""));
    assert!(!has_file_name("/"));
    assert!(!has_file_name("."));
    assert!(!has_file_name("./"));
    assert!(!has_file_name(".."));
    assert!(!has_file_name("out/.."));
    assert!(!has_file_name("//./"));
    assert!(!has_file_name("./."));
}

#[test]
fn add_suffix_normalises_like_std() {
    assert_eq!(add_suffix("out/", "_x"), "out_x");
    assert_eq!(add_suffix("dir/out/", "_x"), "dir/out_x");
    assert_eq!(add_suffix("a//b.txt", "_x"), "a/b_x.txt");
    assert_eq!(add_suffix("a/./b.txt", "_x"), "a/b_x.txt");
    assert_eq!(add_suffix("a/b.txt/.", "_x"), "a/b_x.txt");
    assert_eq!(add_suffix("f.txt", "/sub"), "f/sub.txt");
    assert_eq!(add_suffix("//a", "_x"), "/a_x");
}

#[test]
fn add_suffix_agrees_with_std_path() {
    let paths = [
        "file.txt", "c:\\path\\file.txt", "out/", "dir/out/", "a//b.txt", "a/./b.txt",
        "a/b.txt/.", "a/b/./", "./a", "./a.b", "/a", "//a.b", "///x//y.z//", "a.b.txt",
        ".hidden", "dir/.hidden", "file.", "...", "a/...", "a/..b", "x/../y.tar.gz",
        "./x/", "a/./", "a/.//./", "a.", "/root/.cfg.d/",
    ];
    let suffixes = ["_x", "", ".v2", "/sub", "/", "_1spp_albedo", "/..", "x/.", "."];
    for path in paths {
        assert!(has_file_name(path), "{}", path);
        for suffix in suffixes {
            assert_eq!(
                add_suffix(path, suffix),
                std_add_suffix(path, suffix),
                "path {:?} suffix {:?}",
                path,
                suffix
            );
        }
    }
}

#[test]
fn pfm_dimension_line() {
    assert_eq!(pfm_dimensions("12 34\n"), Some((12, 34)));
    assert_eq!(pfm_dimensions("  3   4 "), Some((3, 4)));
    assert_eq!(pfm_dimensions("a 1 b 2"), Some((1, 2)));
    assert_eq!(pfm_dimensions("-5 +6"), Some((-5, 6)));
    assert_eq!(pfm_dimensions("1 2 3"), None);
    assert_eq!(pfm_dimensions("640"), None);
    assert_eq!(pfm_dimensions(""), None);
    assert_eq!(pfm_dimensions("1\t2"), None);
    assert_eq!(pfm_dimensions("\u{3000}7 8\u{a0}\r\n"), Some((7, 8)));
}
