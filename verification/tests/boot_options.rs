use kcore::cmdline::{
    cmdline_console_count, get_cmdline_console, get_root_device, is_cmdline_console,
    parse_cmdline, primary_cmdline_console, CmdlineState,
};

#[test]
fn parses_console_root_and_trace() {
    let mut st = CmdlineState::new();
    parse_cmdline(
        &mut st,
        b"quiet console=ttyS0,115200 root=/dev/sda1 usb_trace splash",
    );
    assert!(st.usb_trace);
    assert_eq!(cmdline_console_count(&st), 1);
    let c = get_cmdline_console(&st, 0).unwrap();
    assert_eq!(c.device_name(), &b"ttyS0".to_vec());
    assert_eq!(c.baud_rate, 115200);
    assert!(c.matches(b"ttyS0"));
    assert!(!c.matches(b"ttyS1"));
    assert_eq!(get_root_device(&st).unwrap(), b"/dev/sda1".to_vec());
    assert!(is_cmdline_console(&st, b"ttyS0"));
    assert!(!is_cmdline_console(&st, b"tty0"));
}

#[test]
fn baud_rate_parses_leading_digits() {
    let mut st = CmdlineState::new();
    parse_cmdline(&mut st, b"console=ttyS1,9600n8");
    let c = get_cmdline_console(&st, 0).unwrap();
    assert_eq!(c.baud_rate, 9600);
}

#[test]
fn console_without_baud_defaults_to_zero() {
    let mut st = CmdlineState::new();
    parse_cmdline(&mut st, b"console=tty0");
    let c = get_cmdline_console(&st, 0).unwrap();
    assert_eq!(c.baud_rate, 0);
    assert_eq!(c.device_name(), &b"tty0".to_vec());
}

#[test]
fn at_most_four_consoles_kept() {
    let mut st = CmdlineState::new();
    parse_cmdline(
        &mut st,
        b"console=a console=b console=c console=d console=e",
    );
    assert_eq!(cmdline_console_count(&st), 4);
    assert!(get_cmdline_console(&st, 4).is_none());
    // The primary console is the last one recorded.
    let p = primary_cmdline_console(&st).unwrap();
    assert_eq!(p.device_name(), &b"d".to_vec());
}

#[test]
fn device_name_truncated_to_sixteen() {
    let mut st = CmdlineState::new();
    parse_cmdline(&mut st, b"console=abcdefghijklmnopqrstuv,57600");
    let c = get_cmdline_console(&st, 0).unwrap();
    assert_eq!(c.device_name(), &b"abcdefghijklmnop".to_vec());
    assert_eq!(c.baud_rate, 57600);
}

#[test]
fn root_path_truncated_to_sixty_four() {
    let mut st = CmdlineState::new();
    let long: Vec<u8> = std::iter::repeat(b'x').take(80).collect();
    let mut line = b"root=".to_vec();
    line.extend_from_slice(&long);
    parse_cmdline(&mut st, &line);
    assert_eq!(get_root_device(&st).unwrap().len(), 64);
}

#[test]
fn later_root_wins() {
    let mut st = CmdlineState::new();
    parse_cmdline(&mut st, b"root=/dev/sd0 root=/dev/sd1");
    assert_eq!(get_root_device(&st).unwrap(), b"/dev/sd1".to_vec());
}

#[test]
fn unknown_tokens_ignored() {
    let mut st = CmdlineState::new();
    parse_cmdline(&mut st, b"foo bar=1 consoleX=nope");
    assert_eq!(cmdline_console_count(&st), 0);
    assert!(get_root_device(&st).is_none());
    assert!(primary_cmdline_console(&st).is_none());
    assert!(!st.usb_trace);
}

#[test]
fn baud_saturates_on_overflow() {
    let mut st = CmdlineState::new();
    parse_cmdline(&mut st, b"console=t,99999999999999999999");
    let c = get_cmdline_console(&st, 0).unwrap();
    assert_eq!(c.baud_rate, u32::MAX);
}
