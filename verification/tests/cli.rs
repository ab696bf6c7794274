use myemu::cli::{parse_args, parse_u32_value, parse_u64_value};
use myemu::text::{decimal_string, hex_string};

fn tokens(list: &[&str]) -> Vec<String> {
    list.iter().map(|s| s.to_string()).collect()
}

#[test]
fn numbers_are_decimal_or_prefixed_hex() {
    assert_eq!(parse_u32_value("42", "--break"), Ok(42));
    assert_eq!(parse_u32_value("0x40", "--break"), Ok(0x40));
    assert_eq!(parse_u32_value("0XfF", "--break"), Ok(255));
    assert_eq!(parse_u32_value("+7", "--break"), Ok(7));
    assert_eq!(parse_u32_value("0x+7", "--break"), Ok(7));
    assert_eq!(parse_u32_value("4294967295", "--mem"), Ok(u32::MAX));
    assert_eq!(parse_u64_value("18446744073709551615", "--step"), Ok(u64::MAX));
    assert_eq!(parse_u64_value("0x10000000000", "--step"), Ok(1 << 40));
}

#[test]
fn malformed_numbers_are_refused_with_the_option_name() {
    assert_eq!(
        parse_u32_value("4294967296", "--break"),
        Err("--break expects a valid u32 value, got '4294967296'".to_string())
    );
    assert_eq!(
        parse_u32_value("0x", "--mem"),
        Err("--mem expects a valid u32 value, got '0x'".to_string())
    );
    assert!(parse_u32_value("", "--mem").is_err());
    assert!(parse_u32_value("+", "--mem").is_err());
    assert!(parse_u32_value("-1", "--mem").is_err());
    assert!(parse_u32_value("12a", "--mem").is_err());
    assert_eq!(
        parse_u64_value("ten", "--step"),
        Err("--step expects a valid u64 value, got 'ten'".to_string())
    );
}

#[test]
fn full_command_line_is_read() {
    let a = parse_args(&tokens(&[
        "-i", "prog.bin", "--out", "out.txt", "-v", "--break", "0x40", "--step", "10", "--mem",
        "0x100", "16", "--timer-interval", "1000", "--headless", "--disk", "disk.img", "--regs",
        "--trace", "--reg", "R3", "--log-dir", "logs",
    ]))
    .unwrap();
    assert_eq!(a.input_file, "prog.bin");
    assert_eq!(a.output_file, "out.txt");
    assert!(a.verbose && a.trace && a.headless && a.print_regs);
    assert_eq!(a.break_addr, Some(0x40));
    assert_eq!(a.step_count, Some(10));
    assert_eq!(a.mem_range, Some((0x100, 16)));
    assert_eq!(a.timer_interval, Some(1000));
    assert_eq!(a.disk_file, Some("disk.img".to_string()));
    assert_eq!(a.target_reg, "R3");
    assert_eq!(a.log_dir, "logs");
}

#[test]
fn screenshot_command_from_the_readme_is_read() {
    let a = parse_args(&tokens(&[
        "-i", "build/firmware_linked.mbin", "--disk", "build/disk.img", "--headless", "--step",
        "200000000", "--screenshot", "shot.png",
    ]))
    .unwrap();
    assert_eq!(a.input_file, "build/firmware_linked.mbin");
    assert_eq!(a.disk_file, Some("build/disk.img".to_string()));
    assert!(a.headless);
    assert_eq!(a.step_count, Some(200_000_000));
    assert_eq!(a.screenshot, Some("shot.png".to_string()));
    assert_eq!(
        parse_args(&tokens(&["-i", "p.bin", "--screenshot"])).err(),
        Some("--screenshot requires an image path like shot.png".to_string())
    );
    assert_eq!(parse_args(&tokens(&["-i", "p.bin"])).unwrap().screenshot, None);
}

#[test]
fn command_line_errors() {
    assert_eq!(
        parse_args(&tokens(&[])).err(),
        Some("Usage: myemulator -i <binary_file> [-o <output_file>]".to_string())
    );
    assert_eq!(
        parse_args(&tokens(&["-i"])).err(),
        Some("-i/--in requires a filename argument".to_string())
    );
    assert_eq!(
        parse_args(&tokens(&["-i", "p", "--mem", "1"])).err(),
        Some("--mem requires <addr> <len>".to_string())
    );
    assert_eq!(
        parse_args(&tokens(&["-i", "p", "--bogus"])).err(),
        Some("Unknown option: --bogus".to_string())
    );
    assert_eq!(
        parse_args(&tokens(&["--break", "zz", "-i", "p"])).err(),
        Some("--break expects a valid u32 value, got 'zz'".to_string())
    );
}

#[test]
fn later_options_win() {
    let a = parse_args(&tokens(&["-i", "a.bin", "--in", "b.bin"])).unwrap();
    assert_eq!(a.input_file, "b.bin");
    assert_eq!(a.break_addr, None);
    assert!(!a.verbose);
}

#[test]
fn printed_numbers_parse_back() {
    for n in [0u64, 7, 10, 255, 4096, 0xDEAD_BEEF, u32::MAX as u64] {
        assert_eq!(parse_u32_value(&decimal_string(n), "--mem"), Ok(n as u32));
        assert_eq!(parse_u32_value(&format!("0x{}", hex_string(n)), "--mem"), Ok(n as u32));
    }
    assert_eq!(parse_u64_value(&decimal_string(u64::MAX), "--step"), Ok(u64::MAX));
}
