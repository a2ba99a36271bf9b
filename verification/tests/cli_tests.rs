use heictojpeg::cli::add_size;
use heictojpeg::cli::converted_log_line;
use heictojpeg::cli::count_ok;
use heictojpeg::cli::error_log_line;
use heictojpeg::cli::file_stem;
use heictojpeg::cli::files_count_line;
use heictojpeg::cli::human_readable_size;
use heictojpeg::cli::is_heic_extension;
use heictojpeg::cli::jpeg_output_path;
use heictojpeg::cli::parse_args;
use heictojpeg::cli::total_heic_size_line;
use heictojpeg::cli::total_jpeg_size_line;
use heictojpeg::cli::u64_to_dec_string;
use heictojpeg::cli::CliAction;

#[test]
fn test_human_readable_size() {
    assert_eq!(human_readable_size(0), "0B");
    assert_eq!(human_readable_size(500), "500B");
    assert_eq!(human_readable_size(1024), "1.0KB");
    assert_eq!(human_readable_size(1536), "1.5KB");
    assert_eq!(human_readable_size(1_048_576), "1.0MB");
    assert_eq!(human_readable_size(1_073_741_824), "1.0GB");
}

#[test]
fn test_human_readable_size_rounding() {
    // 1075/1024 = 1.0498... rounds down; 1127/1024 = 1.1005... rounds down to 1.1
    assert_eq!(human_readable_size(1075), "1.0KB");
    assert_eq!(human_readable_size(1127), "1.1KB");
    // just below the next unit
    assert_eq!(human_readable_size(1023), "1023B");
    // terabytes
    assert_eq!(human_readable_size(1_099_511_627_776), "1.0TB");
    assert_eq!(human_readable_size(1_649_267_441_664), "1.5TB");
}

#[test]
fn test_u64_to_dec_string() {
    assert_eq!(u64_to_dec_string(0), "0");
    assert_eq!(u64_to_dec_string(7), "7");
    assert_eq!(u64_to_dec_string(10), "10");
    assert_eq!(u64_to_dec_string(18_446_744_073_709_551_615), "18446744073709551615");
}

#[test]
fn test_jpeg_output_path() {
    assert_eq!(jpeg_output_path("/photos/jpegs", "img"), "/photos/jpegs/img.jpg");
    assert_eq!(jpeg_output_path(".", "a"), "./a.jpg");
}

#[test]
fn test_file_stem() {
    assert_eq!(file_stem("photo.heic"), "photo");
    assert_eq!(file_stem("archive.tar.gz"), "archive.tar");
    assert_eq!(file_stem("noext"), "noext");
    assert_eq!(file_stem(".bashrc"), ".bashrc");
}

#[test]
fn test_is_heic_extension() {
    assert!(is_heic_extension("heic"));
    assert!(is_heic_extension("HEIC"));
    assert!(is_heic_extension("HeIc"));
    assert!(!is_heic_extension("heif"));
    assert!(!is_heic_extension("jpg"));
    assert!(!is_heic_extension("heicc"));
    assert!(!is_heic_extension(""));
}

#[test]
fn test_parse_args() {
    let prog = || "prog".to_string();
    match parse_args(&vec![prog()]) {
        CliAction::Convert(p) => assert_eq!(p, "."),
        _ => panic!("expected conversion of the current directory"),
    }
    assert!(matches!(parse_args(&vec![prog(), "--version".to_string()]), CliAction::PrintVersion));
    assert!(matches!(parse_args(&vec![prog(), "-v".to_string()]), CliAction::PrintVersion));
    assert!(matches!(parse_args(&vec![prog(), "--help".to_string()]), CliAction::PrintHelp));
    assert!(matches!(parse_args(&vec![prog(), "-h".to_string()]), CliAction::PrintHelp));
    assert!(matches!(
        parse_args(&vec![prog(), "a".to_string(), "b".to_string()]),
        CliAction::UsageError
    ));
    match parse_args(&vec![prog(), "photos".to_string()]) {
        CliAction::Convert(p) => assert_eq!(p, "photos"),
        _ => panic!("expected conversion of the given path"),
    }
    // a flag wins even with extra arguments behind it
    assert!(matches!(
        parse_args(&vec![prog(), "-v".to_string(), "x".to_string()]),
        CliAction::PrintVersion
    ));
}

#[test]
fn test_log_lines() {
    assert_eq!(
        converted_log_line("a.heic", 1024, "a", 500),
        "a.heic 1.0KB > Converted > jpegs/a.jpg 500B"
    );
    assert_eq!(
        error_log_line("b.heic", "decode-failed: truncated"),
        "b.heic > Error: decode-failed: truncated"
    );
    assert_eq!(files_count_line(3), "3 Files");
    assert_eq!(total_heic_size_line(1536), "Total HEIC File Size==1.5KB");
    assert_eq!(total_jpeg_size_line(500), "Total JPEG Folder Size==500B");
}

#[test]
fn test_count_ok_and_add_size() {
    assert_eq!(count_ok(&vec![]), 0);
    assert_eq!(count_ok(&vec![true, false, true, true]), 3);
    assert_eq!(add_size(10, 20), 30);
    assert_eq!(add_size(u64::MAX - 1, 5), u64::MAX);
}
