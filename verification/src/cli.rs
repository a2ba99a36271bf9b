//! Pure decisions and rendering of the command-line driver: argument
//! dispatch, output-path construction, human-readable sizes and the per-file
//! lines of the conversion log.  The driver performs the file system walk and
//! printing around these.

use vstd::prelude::*;

verus! {

/// The command-line entry point of the converter.  The driver builds one and
/// runs the conversion it describes.
#[derive(Debug)]
pub struct Command {}

/// What a run of the program should do, decided from its arguments alone.
pub enum CliAction {
    /// Print the version banner and exit.
    PrintVersion,
    /// Print the usage text and exit.
    PrintHelp,
    /// Convert the file or directory at the carried path.
    Convert(String),
    /// Too many arguments were given.
    UsageError,
}

/// `a` asks for the version banner.
pub open spec fn is_version_flag(a: Seq<char>) -> bool {
    a == "--version"@ || a == "-v"@
}

/// `a` asks for the usage text.
pub open spec fn is_help_flag(a: Seq<char>) -> bool {
    a == "--help"@ || a == "-h"@
}

/// Decide what to do from the program arguments (`args[0]` is the program
/// name).  No argument converts the current directory; a version or help
/// flag wins over everything else; more than one trailing argument is a
/// usage error.
pub fn parse_args(args: &Vec<String>) -> (r: CliAction)
    ensures
        args@.len() < 2 ==> (r matches CliAction::Convert(p) && p@ == "."@),
        args@.len() >= 2 && is_version_flag(args@[1]@) ==> r is PrintVersion,
        args@.len() >= 2 && !is_version_flag(args@[1]@) && is_help_flag(args@[1]@) ==> r is PrintHelp,
        args@.len() > 2 && !is_version_flag(args@[1]@) && !is_help_flag(args@[1]@) ==> r is UsageError,
        args@.len() == 2 && !is_version_flag(args@[1]@) && !is_help_flag(args@[1]@)
            ==> (r matches CliAction::Convert(p) && p@ == args@[1]@),
{
    if args.len() < 2 {
        return CliAction::Convert(String::from_str("."));
    }
    let arg = &args[1];
    if arg.eq(&String::from_str("--version")) || arg.eq(&String::from_str("-v")) {
        CliAction::PrintVersion
    } else if arg.eq(&String::from_str("--help")) || arg.eq(&String::from_str("-h")) {
        CliAction::PrintHelp
    } else if args.len() > 2 {
        CliAction::UsageError
    } else {
        CliAction::Convert(arg.clone())
    }
}

/// `s` has the (ASCII case-insensitive) extension `heic`.
pub open spec fn is_heic_ext(s: Seq<char>) -> bool {
    &&& s.len() == 4
    &&& (s[0] == 'h' || s[0] == 'H')
    &&& (s[1] == 'e' || s[1] == 'E')
    &&& (s[2] == 'i' || s[2] == 'I')
    &&& (s[3] == 'c' || s[3] == 'C')
}

/// Decide whether a file extension names an HEIC file, ignoring ASCII case.
pub fn is_heic_extension(ext: &str) -> (r: bool)
    ensures
        r == is_heic_ext(ext@),
{
    let n = ext.unicode_len();
    if n != 4 {
        return false;
    }
    let c0 = ext.get_char(0);
    let c1 = ext.get_char(1);
    let c2 = ext.get_char(2);
    let c3 = ext.get_char(3);
    (c0 == 'h' || c0 == 'H') && (c1 == 'e' || c1 == 'E') && (c2 == 'i' || c2 == 'I')
        && (c3 == 'c' || c3 == 'C')
}

/// The output path for a converted file: `<jpeg_dir>/<stem>.jpg`.
pub fn jpeg_output_path(jpeg_dir: &str, stem: &str) -> (r: String)
    ensures
        r@ == jpeg_dir@ + "/"@ + stem@ + ".jpg"@,
{
    let mut s = String::from_str(jpeg_dir);
    s.append("/");
    s.append(stem);
    s.append(".jpg");
    s
}

/// Index of the last `.` of `s`, or -1 when `s` holds none.
pub open spec fn last_dot(s: Seq<char>) -> int
    decreases s.len(),
{
    if s.len() == 0 {
        -1
    } else if s[s.len() - 1] == '.' {
        s.len() - 1
    } else {
        last_dot(s.drop_last())
    }
}

/// The stem of a file name: everything before the last `.`, or the whole
/// name when there is no `.` past the first character.
pub open spec fn stem_of(s: Seq<char>) -> Seq<char> {
    if last_dot(s) <= 0 {
        s
    } else {
        s.subrange(0, last_dot(s))
    }
}

/// The stem of a plain file name (no directory part).
pub fn file_stem(name: &str) -> (r: &str)
    ensures
        r@ == stem_of(name@),
{
    let n = name.unicode_len();
    let mut j: usize = n;
    proof {
        assert(name@.take(n as int) =~= name@);
    }
    while j > 0
        invariant
            0 <= j <= n,
            n == name@.len(),
            last_dot(name@) == last_dot(name@.take(j as int)),
        decreases j,
    {
        let c = name.get_char(j - 1);
        if c == '.' {
            proof {
                assert(name@.take(j as int).len() == j);
                assert(name@.take(j as int)[j - 1] == '.');
                assert(last_dot(name@.take(j as int)) == j - 1);
            }
            if j - 1 == 0 {
                return name;
            }
            let r = name.substring_char(0, j - 1);
            proof {
                assert(r@ =~= stem_of(name@));
            }
            return r;
        }
        proof {
            assert(name@.take(j as int)[j - 1] != '.');
            assert(name@.take(j as int).drop_last() =~= name@.take(j - 1));
        }
        j = j - 1;
    }
    proof {
        assert(name@.take(0).len() == 0);
        assert(last_dot(name@) == -1);
    }
    name
}

/// The decimal digit characters.
pub open spec fn dec_digit_char(d: nat) -> char {
    if d == 0 {
        '0'
    } else if d == 1 {
        '1'
    } else if d == 2 {
        '2'
    } else if d == 3 {
        '3'
    } else if d == 4 {
        '4'
    } else if d == 5 {
        '5'
    } else if d == 6 {
        '6'
    } else if d == 7 {
        '7'
    } else if d == 8 {
        '8'
    } else {
        '9'
    }
}

/// The decimal rendering of `n`, without a sign and without leading zeros.
pub open spec fn dec_str(n: nat) -> Seq<char>
    decreases n,
{
    if n < 10 {
        seq![dec_digit_char(n)]
    } else {
        dec_str(n / 10) + seq![dec_digit_char(n % 10)]
    }
}

/// The one-character string of a decimal digit.
fn digit_str(d: u64) -> (r: &'static str)
    requires
        d < 10,
    ensures
        r@ == seq![dec_digit_char(d as nat)],
{
    proof {
        reveal_strlit("0");
        reveal_strlit("1");
        reveal_strlit("2");
        reveal_strlit("3");
        reveal_strlit("4");
        reveal_strlit("5");
        reveal_strlit("6");
        reveal_strlit("7");
        reveal_strlit("8");
        reveal_strlit("9");
    }
    let r: &'static str = if d == 0 {
        "0"
    } else if d == 1 {
        "1"
    } else if d == 2 {
        "2"
    } else if d == 3 {
        "3"
    } else if d == 4 {
        "4"
    } else if d == 5 {
        "5"
    } else if d == 6 {
        "6"
    } else if d == 7 {
        "7"
    } else if d == 8 {
        "8"
    } else {
        "9"
    };
    proof {
        assert(r@ =~= seq![dec_digit_char(d as nat)]);
    }
    r
}

/// Render `n` in decimal.
pub fn u64_to_dec_string(n: u64) -> (r: String)
    ensures
        r@ == dec_str(n as nat),
    decreases n,
{
    if n < 10 {
        String::from_str(digit_str(n))
    } else {
        let mut s = u64_to_dec_string(n / 10);
        s.append(digit_str(n % 10));
        s
    }
}

/// The byte count under which a size is shown in unit `k` (0 = bytes,
/// 1 = KB, ..., 4 = TB).
pub open spec fn unit_divisor(k: nat) -> nat {
    if k == 0 {
        1
    } else if k == 1 {
        1024
    } else if k == 2 {
        0x100000
    } else if k == 3 {
        0x40000000
    } else {
        0x10000000000
    }
}

/// The unit a byte count is shown in: the largest unit it reaches, capped at
/// terabytes.
pub open spec fn size_unit_index(bytes: nat) -> nat {
    if bytes < 1024 {
        0
    } else if bytes < 0x100000 {
        1
    } else if bytes < 0x40000000 {
        2
    } else if bytes < 0x10000000000 {
        3
    } else {
        4
    }
}

/// The suffix of each size unit.
pub open spec fn unit_suffix(k: nat) -> Seq<char> {
    if k == 0 {
        "B"@
    } else if k == 1 {
        "KB"@
    } else if k == 2 {
        "MB"@
    } else if k == 3 {
        "GB"@
    } else {
        "TB"@
    }
}

/// `bytes / den` in tenths, rounded to nearest with ties to even (the
/// rounding of fixed-precision decimal formatting).
pub open spec fn rounded_tenths(bytes: nat, den: nat) -> nat {
    let q = bytes * 10 / den;
    let r = bytes * 10 % den;
    if 2 * r > den {
        q + 1
    } else if 2 * r < den {
        q
    } else if q % 2 == 0 {
        q
    } else {
        q + 1
    }
}

/// A byte count rendered for humans: plain bytes below 1 KB, otherwise one
/// decimal place in the largest unit reached.
pub open spec fn human_size_str(bytes: nat) -> Seq<char> {
    let k = size_unit_index(bytes);
    if k == 0 {
        dec_str(bytes) + "B"@
    } else {
        let t = rounded_tenths(bytes, unit_divisor(k));
        dec_str(t / 10) + "."@ + seq![dec_digit_char(t % 10)] + unit_suffix(k)
    }
}

/// Format a byte count for humans: `500B`, `1.5KB`, `1.0MB`, ...
pub fn human_readable_size(bytes: u64) -> (r: String)
    ensures
        r@ == human_size_str(bytes as nat),
{
    if bytes < 1024 {
        let mut s = u64_to_dec_string(bytes);
        s.append("B");
        return s;
    }
    let den: u64 = if bytes < 0x100000 {
        1024
    } else if bytes < 0x40000000 {
        0x100000
    } else if bytes < 0x10000000000 {
        0x40000000
    } else {
        0x10000000000
    };
    let unit: &'static str = if bytes < 0x100000 {
        "KB"
    } else if bytes < 0x40000000 {
        "MB"
    } else if bytes < 0x10000000000 {
        "GB"
    } else {
        "TB"
    };
    let whole: u64 = bytes / den;
    let rem: u64 = bytes % den;
    let q1: u64 = rem * 10 / den;
    let r1: u64 = rem * 10 % den;
    proof {
        vstd::arithmetic::div_mod::lemma_fundamental_div_mod(bytes as int, den as int);
        vstd::arithmetic::div_mod::lemma_fundamental_div_mod(rem as int * 10, den as int);
        assert(whole * 1024 <= whole * den <= bytes) by (nonlinear_arith)
            requires 1024 <= den, whole == bytes / den, whole * den + rem == bytes, 0 <= rem;
        assert(bytes as int * 10 == (whole as int * 10 + q1 as int) * den as int + r1 as int)
            by (nonlinear_arith)
            requires
                bytes == whole * den + rem,
                rem as int * 10 == q1 as int * den as int + r1 as int;
        vstd::arithmetic::div_mod::lemma_fundamental_div_mod_converse_div(
            bytes as int * 10, den as int, whole as int * 10 + q1 as int, r1 as int);
        vstd::arithmetic::div_mod::lemma_fundamental_div_mod_converse_mod(
            bytes as int * 10, den as int, whole as int * 10 + q1 as int, r1 as int);
    }
    let qt: u64 = whole * 10 + q1;
    let t: u64 = if 2 * r1 > den {
        qt + 1
    } else if 2 * r1 < den {
        qt
    } else if qt % 2 == 0 {
        qt
    } else {
        qt + 1
    };
    assert(t == rounded_tenths(bytes as nat, den as nat));
    let mut s = u64_to_dec_string(t / 10);
    s.append(".");
    s.append(digit_str(t % 10));
    s.append(unit);
    proof {
        assert(s@ =~= human_size_str(bytes as nat));
    }
    s
}

/// A log line for a converted file:
/// `<name> <heic size> > Converted > jpegs/<stem>.jpg <jpeg size>`.
pub fn converted_log_line(file_name: &str, heic_size: u64, stem: &str, jpeg_size: u64)
    -> (r: String)
    ensures
        r@ == file_name@ + " "@ + human_size_str(heic_size as nat) + " > Converted > jpegs/"@
            + stem@ + ".jpg "@ + human_size_str(jpeg_size as nat),
{
    let mut s = String::from_str(file_name);
    s.append(" ");
    let hs = human_readable_size(heic_size);
    s.append(hs.as_str());
    s.append(" > Converted > jpegs/");
    s.append(stem);
    s.append(".jpg ");
    let js = human_readable_size(jpeg_size);
    s.append(js.as_str());
    s
}

/// A log line for a failed file: `<name> > Error: <detail>`.
pub fn error_log_line(file_name: &str, detail: &str) -> (r: String)
    ensures
        r@ == file_name@ + " > Error: "@ + detail@,
{
    let mut s = String::from_str(file_name);
    s.append(" > Error: ");
    s.append(detail);
    s
}

/// The file-count summary line: `<n> Files`.
pub fn files_count_line(n: u64) -> (r: String)
    ensures
        r@ == dec_str(n as nat) + " Files"@,
{
    let mut s = u64_to_dec_string(n);
    s.append(" Files");
    s
}

/// The total-input-size summary line.
pub fn total_heic_size_line(total: u64) -> (r: String)
    ensures
        r@ == "Total HEIC File Size=="@ + human_size_str(total as nat),
{
    let mut s = String::from_str("Total HEIC File Size==");
    let hs = human_readable_size(total);
    s.append(hs.as_str());
    s
}

/// The total-output-size summary line.
pub fn total_jpeg_size_line(total: u64) -> (r: String)
    ensures
        r@ == "Total JPEG Folder Size=="@ + human_size_str(total as nat),
{
    let mut s = String::from_str("Total JPEG Folder Size==");
    let hs = human_readable_size(total);
    s.append(hs.as_str());
    s
}

/// Add a file size to a running total, saturating at the largest
/// representable total.
pub fn add_size(total: u64, size: u64) -> (r: u64)
    ensures
        r == if total + size <= u64::MAX { total + size } else { u64::MAX as int },
{
    if size > u64::MAX - total {
        u64::MAX
    } else {
        total + size
    }
}

/// How many of the per-file outcomes succeeded.
pub open spec fn count_true(s: Seq<bool>) -> int
    decreases s.len(),
{
    if s.len() == 0 {
        0
    } else {
        count_true(s.drop_last()) + if s.last() { 1int } else { 0int }
    }
}

/// Count the successful conversions among the per-file outcomes.
pub fn count_ok(outcomes: &Vec<bool>) -> (r: usize)
    ensures
        r == count_true(outcomes@),
{
    let mut n: usize = 0;
    let mut i: usize = 0;
    while i < outcomes.len()
        invariant
            0 <= i <= outcomes@.len(),
            n <= i,
            n == count_true(outcomes@.take(i as int)),
        decreases outcomes@.len() - i,
    {
        proof {
            assert(outcomes@.take(i + 1).drop_last() =~= outcomes@.take(i as int));
            assert(outcomes@.take(i + 1).last() == outcomes@[i as int]);
        }
        if outcomes[i] {
            n = n + 1;
        }
        i = i + 1;
    }
    proof {
        assert(outcomes@.take(outcomes@.len() as int) =~= outcomes@);
    }
    n
}

} // verus!
