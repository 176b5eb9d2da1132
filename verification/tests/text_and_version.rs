use psh::linux_version::{parse_linux_version_code, LinuxVersionError};
use psh::text::{parse_unsigned, trim};

#[test]
fn trims_white_space() {
    assert_eq!(trim("  0-159\n"), "0-159");
    assert_eq!(trim("ffffffff,ffffffff\n"), "ffffffff,ffffffff");
    assert_eq!(trim("\t\r\n "), "");
    assert_eq!(trim(""), "");
    assert_eq!(trim("a b"), "a b");
    assert_eq!(trim("\u{3000}x\u{a0}"), "x");
}

#[test]
fn trim_agrees_with_std() {
    for s in ["", " ", "x", " x ", "\n\nx y\n", "\u{2009}z\u{85}", "é ", " \u{200b}"] {
        assert_eq!(trim(s), s.trim());
    }
}

#[test]
fn parses_unsigned_decimals() {
    assert_eq!(parse_unsigned(b"0", u32::MAX as u64), Some(0));
    assert_eq!(parse_unsigned(b"12", u32::MAX as u64), Some(12));
    assert_eq!(parse_unsigned(b"+7", u32::MAX as u64), Some(7));
    assert_eq!(parse_unsigned(b"4294967295", u32::MAX as u64), Some(4294967295));
    assert_eq!(parse_unsigned(b"4294967296", u32::MAX as u64), None);
    assert_eq!(parse_unsigned(b"18446744073709551615", u64::MAX), Some(u64::MAX));
    assert_eq!(parse_unsigned(b"18446744073709551616", u64::MAX), None);
    assert_eq!(parse_unsigned(b"", u32::MAX as u64), None);
    assert_eq!(parse_unsigned(b"+", u32::MAX as u64), None);
    assert_eq!(parse_unsigned(b"-1", u32::MAX as u64), None);
    assert_eq!(parse_unsigned(b"1a", u32::MAX as u64), None);
    assert_eq!(parse_unsigned(b" 1", u32::MAX as u64), None);
    assert_eq!(parse_unsigned(b"0007", 9), Some(7));
    assert_eq!(parse_unsigned(b"10", 9), None);
}

#[test]
fn parse_agrees_with_std() {
    for s in ["0", "1", "+1", "-0", "", "99999999999", "4294967295", "42x", "++1", "00"] {
        assert_eq!(parse_unsigned(s.as_bytes(), u32::MAX as u64), s.parse::<u32>().ok().map(u64::from));
    }
}

#[test]
fn reads_linux_version() {
    let header = "#define LINUX_VERSION_CODE 393216\n#define KERNEL_VERSION(a,b,c) (((a) << 16) + ((b) << 8) + ((c) > 255 ? 255 : (c)))\n";
    assert_eq!(parse_linux_version_code(header), Ok((6, 0, 0)));
    assert_eq!(parse_linux_version_code("#define LINUX_VERSION_CODE 330496"), Ok((5, 11, 0)));
    assert_eq!(parse_linux_version_code("#define LINUX_VERSION_CODE 266002\r\n"), Ok((4, 15, 18)));
    assert_eq!(parse_linux_version_code("#define LINUX_VERSION_CODE 394518 trailing"), Ok((6, 5, 22)));
}

#[test]
fn linux_version_errors() {
    assert_eq!(parse_linux_version_code(""), Err(LinuxVersionError::NoLines));
    assert_eq!(parse_linux_version_code("#define LINUX_VERSION_CODE\n"), Err(LinuxVersionError::InvalidLine));
    assert_eq!(parse_linux_version_code("\n#define LINUX_VERSION_CODE 1"), Err(LinuxVersionError::InvalidLine));
    assert_eq!(parse_linux_version_code("#define LINUX_VERSION_CODE abc"), Err(LinuxVersionError::InvalidCode));
    // two spaces: the third field is empty
    assert_eq!(parse_linux_version_code("#define  LINUX_VERSION_CODE 1"), Err(LinuxVersionError::InvalidCode));
    // a bare carriage return at the end is part of the line
    assert_eq!(parse_linux_version_code("#define LINUX_VERSION_CODE 1\r"), Err(LinuxVersionError::InvalidCode));
}

#[test]
fn version_code_roundtrip() {
    for (a, b, c) in [(0usize, 0usize, 0usize), (2, 6, 32), (6, 1, 255), (5, 255, 7)] {
        let code = a * 65536 + b * 256 + c;
        let text = format!("#define LINUX_VERSION_CODE {}\n", code);
        assert_eq!(parse_linux_version_code(&text), Ok((a, b, c)));
    }
}
