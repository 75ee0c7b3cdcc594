use std::cell::RefCell;

use cydia_substrate::error::{Argument, HookError};
use cydia_substrate::hook::{
    a64_hook_function, a64_hook_function_v, ms_hook_function, original_or_failure, Hook, ObjCHook,
};
use cydia_substrate::utils::{
    find_library, get_absolute_address, is_library_loaded, parse_hex, string_to_offset, wait_for_library,
};

const MAPS: &str = "\
00400000-00452000 r-xp 00000000 08:02 173521      /usr/bin/dbus-daemon\n\
7f3c1a000000-7f3c1a1c0000 r-xp 00000000 08:02 135522  /lib/x86_64-linux-gnu/libc-2.31.so\r\n\
7f3c1a1c0000-7f3c1a3c0000 ---p 001c0000 08:02 135522  /lib/x86_64-linux-gnu/libc-2.31.so\n\
zz-7f3c1b000000 r--p 00000000 08:02 1  /lib/libbroken.so\n\
7ffd5c9a2000-7ffd5c9c3000 rw-p 00000000 00:00 0          [stack]";

fn dummy_backend(symbol: usize, _replace: usize) -> usize {
    symbol + 0x100
}

#[test]
fn test_null_pointer_checks() {
    let result = ms_hook_function(0, 0, &dummy_backend);
    assert!(result.is_err());
    assert_eq!(result.unwrap_err().message(), "Symbol pointer is null");
}

#[test]
fn test_hook_creation() {
    let dummy_fn: usize = 0x5000;
    let result = Hook::new(0, dummy_fn, &dummy_backend);
    assert!(result.is_err());
}

#[test]
fn backend_is_asked_only_for_addresses_that_are_not_null() {
    let calls: RefCell<Vec<(usize, usize)>> = RefCell::new(Vec::new());
    let backend = |symbol: usize, replace: usize| {
        calls.borrow_mut().push((symbol, replace));
        0usize
    };
    assert_eq!(ms_hook_function(0, 0x2000, &backend), Err(HookError::NullArgument(Argument::Symbol)));
    assert_eq!(ms_hook_function(0x1000, 0, &backend), Err(HookError::NullArgument(Argument::Replacement)));
    assert!(calls.borrow().is_empty());
    assert_eq!(ms_hook_function(0x1000, 0x2000, &backend), Ok(0));
    assert_eq!(*calls.borrow(), vec![(0x1000, 0x2000)]);
}

#[test]
fn hook_keeps_what_the_backend_returned() {
    let hook = Hook::new(0x1000, 0x2000, &dummy_backend).unwrap();
    assert_eq!(hook.original(), 0x1100);
    assert_eq!(hook.original_fn(), Some(0x1100));
    let none = Hook::new(0x1000, 0x2000, &|_symbol: usize, _replace: usize| 0usize).unwrap();
    assert_eq!(none.original(), 0);
    assert_eq!(none.original_fn(), None);
    assert_eq!(
        Hook::new(0x1000, 0, &dummy_backend).err(),
        Some(HookError::NullArgument(Argument::Replacement))
    );
}

#[test]
fn offsets_in_hexadecimal() {
    assert_eq!(string_to_offset("0x1000"), Some(0x1000));
    assert_eq!(string_to_offset("1000"), Some(0x1000));
    assert_eq!(string_to_offset("0X1f"), Some(0x1f));
    assert_eq!(string_to_offset("DeadBeef"), Some(0xdead_beef));
    assert_eq!(string_to_offset("0"), Some(0));
    assert_eq!(string_to_offset("+ff"), Some(255));
    assert_eq!(string_to_offset("0x+ff"), Some(255));
    assert_eq!(string_to_offset("000000000000000000000000000000001"), Some(1));
}

#[test]
fn offsets_with_repeated_prefixes() {
    assert_eq!(string_to_offset("0x0x10"), Some(0x10));
    assert_eq!(string_to_offset("0x0X10"), Some(0x10));
    assert_eq!(string_to_offset("0X0X0X7"), Some(7));
    // the lower case prefix is only dropped in front
    assert_eq!(string_to_offset("0X0x10"), None);
    assert_eq!(string_to_offset("0x0"), Some(0));
    assert_eq!(string_to_offset("00x1"), None);
}

#[test]
fn offsets_that_are_no_numbers() {
    assert_eq!(string_to_offset(""), None);
    assert_eq!(string_to_offset("0x"), None);
    assert_eq!(string_to_offset("+"), None);
    assert_eq!(string_to_offset("-1"), None);
    assert_eq!(string_to_offset("++1"), None);
    assert_eq!(string_to_offset("g"), None);
    assert_eq!(string_to_offset(" 10"), None);
    assert_eq!(string_to_offset("10 "), None);
    assert_eq!(string_to_offset("1_000"), None);
    assert_eq!(string_to_offset("\u{663}"), None);
}

#[test]
fn offsets_at_the_limit() {
    if usize::BITS == 64 {
        assert_eq!(string_to_offset("ffffffffffffffff"), Some(usize::MAX));
        assert_eq!(string_to_offset("0xFFFFFFFFFFFFFFFF"), Some(usize::MAX));
        assert_eq!(string_to_offset("10000000000000000"), None);
        assert_eq!(string_to_offset("fffffffffffffffff"), None);
    }
}

#[test]
fn offsets_agree_with_the_standard_parser() {
    let samples = [
        "0", "7", "a", "F", "10", "abc", "ABCDEF", "0x12", "0X12", "0x0x12", "x12", "12x", "+12", "+", "-12", "",
        "0x", "fffffffff", "12345678", "ffffffffffffffff", "1ffffffffffffffff", "g1", "1g", "0x+1", "+0x1",
    ];
    for sample in samples {
        let cleaned = sample.trim_start_matches("0x").trim_start_matches("0X");
        assert_eq!(string_to_offset(sample), usize::from_str_radix(cleaned, 16).ok(), "{}", sample);
    }
}

#[test]
fn parse_hex_reads_a_range() {
    let text = "base=7f00-rest".as_bytes();
    assert_eq!(parse_hex(text, 5, 9), Some(0x7f00));
    assert_eq!(parse_hex(text, 5, 10), None);
    assert_eq!(parse_hex(text, 5, 5), None);
    assert_eq!(parse_hex(text, 1, 2), Some(0xa));
}

#[test]
fn library_base_is_the_start_of_the_first_line_with_the_name() {
    assert_eq!(find_library(MAPS, "dbus-daemon"), Some(0x0040_0000));
    if usize::BITS == 64 {
        assert_eq!(find_library(MAPS, "libc-2.31.so"), Some(0x7f3c_1a00_0000u64 as usize));
        assert_eq!(find_library(MAPS, "[stack]"), Some(0x7ffd_5c9a_2000u64 as usize));
        assert_eq!(find_library(MAPS, "---p"), Some(0x7f3c_1a1c_0000u64 as usize));
    }
    assert_eq!(find_library(MAPS, "libm.so"), None);
    assert_eq!(find_library(MAPS, "libbroken"), None);
    assert_eq!(find_library("", "libc"), None);
    // every line holds the empty name
    assert_eq!(find_library(MAPS, ""), Some(0x0040_0000));
    assert_eq!(find_library("1000 libx\n2000-3000 libx\n", "libx"), None);
    assert_eq!(find_library("\n\n2000-3000 libx", "libx"), Some(0x2000));
    assert_eq!(find_library("2000 libx", "libx\n"), None);
}

#[test]
fn a_name_does_not_reach_over_the_end_of_a_line() {
    assert!(!is_library_loaded("abc\ndef", "c\nd"));
    assert!(!is_library_loaded("abc\r\ndef", "c\r"));
    assert!(is_library_loaded("abc\rdef", "c\rd"));
    assert!(is_library_loaded("abc\r", "c\r"));
}

#[test]
fn library_presence() {
    assert!(is_library_loaded(MAPS, "libc-2.31.so"));
    assert!(is_library_loaded(MAPS, "libbroken.so"));
    assert!(is_library_loaded(MAPS, "[stack]"));
    assert!(!is_library_loaded(MAPS, "libm.so"));
    assert!(!is_library_loaded("", ""));
    assert!(is_library_loaded("\n", ""));
}

#[test]
fn absolute_addresses() {
    assert_eq!(get_absolute_address(MAPS, "dbus-daemon", 0x1234), Some(0x0040_1234));
    assert_eq!(get_absolute_address(MAPS, "dbus-daemon", usize::MAX), None);
    assert_eq!(get_absolute_address(MAPS, "libm.so", 0x1234), None);
}

#[test]
fn waiting_for_a_library() {
    let reads = RefCell::new(0u32);
    let sleeps: RefCell<Vec<u64>> = RefCell::new(Vec::new());
    let read_maps = || {
        *reads.borrow_mut() += 1;
        if *reads.borrow() >= 3 {
            String::from(MAPS)
        } else {
            String::new()
        }
    };
    let sleep = |ms: u64| sleeps.borrow_mut().push(ms);
    assert!(wait_for_library("libc-2.31.so", 1000, &read_maps, &sleep));
    assert_eq!(*reads.borrow(), 3);
    assert_eq!(*sleeps.borrow(), vec![100, 100]);

    *reads.borrow_mut() = 0;
    sleeps.borrow_mut().clear();
    assert!(!wait_for_library("libc-2.31.so", 250, &read_maps, &sleep));
    assert_eq!(*reads.borrow(), 2);
    assert_eq!(*sleeps.borrow(), vec![100, 100]);

    *reads.borrow_mut() = 5;
    assert!(!wait_for_library("libc-2.31.so", 99, &read_maps, &sleep));
    assert_eq!(*reads.borrow(), 5);
}

#[test]
fn debug_switch() {
    let mut debug = cydia_substrate::debug::Debug::new();
    assert!(!debug.is_enabled());
    debug.enable();
    assert!(debug.is_enabled());
    debug.disable();
    assert!(!debug.is_enabled());
    assert!(!cydia_substrate::debug::Debug::default().is_enabled());
}

#[test]
fn backend_that_must_give_an_original() {
    assert_eq!(a64_hook_function(0x1000, 0x2000, &dummy_backend), Ok(0x1100));
    assert_eq!(a64_hook_function(0, 0x2000, &dummy_backend), Err(HookError::NullArgument(Argument::Symbol)));
    assert_eq!(a64_hook_function(0x1000, 0, &dummy_backend), Err(HookError::NullArgument(Argument::Replacement)));
    let failing = |_symbol: usize, _replace: usize| 0usize;
    assert_eq!(a64_hook_function(0x1000, 0x2000, &failing), Err(HookError::BackendFailure));
    assert_eq!(HookError::BackendFailure.message(), "Hook failed");
    assert_eq!(original_or_failure(0), Err(HookError::BackendFailure));
    assert_eq!(original_or_failure(0x10), Ok(0x10));
}

#[test]
fn backend_with_a_buffer_of_the_caller() {
    let backend = |symbol: usize, replace: usize, rwx: usize, rwx_size: usize| {
        if rwx_size >= 16 {
            symbol + replace + rwx
        } else {
            0
        }
    };
    assert_eq!(a64_hook_function_v(0x1000, 0x2000, 0x30000, 16, &backend), Ok(0x33000));
    assert_eq!(a64_hook_function_v(0x1000, 0x2000, 0x30000, 8, &backend), Err(HookError::BackendFailure));
    assert_eq!(
        a64_hook_function_v(0, 0x2000, 0x30000, 16, &backend),
        Err(HookError::NullArgument(Argument::Symbol))
    );
    assert_eq!(
        a64_hook_function_v(0x1000, 0, 0, 0, &backend),
        Err(HookError::NullArgument(Argument::Replacement))
    );
}

#[test]
fn message_hooks_check_their_arguments_in_order() {
    let backend = |class: usize, selector: usize, implementation: usize| class + selector + implementation;
    assert_eq!(ObjCHook::hook_message(1, 2, 3, &backend).unwrap().original(), 6);
    assert_eq!(ObjCHook::hook_message(0, 0, 0, &backend).err(), Some(HookError::NullArgument(Argument::Class)));
    assert_eq!(ObjCHook::hook_message(1, 0, 0, &backend).err(), Some(HookError::NullArgument(Argument::Selector)));
    assert_eq!(
        ObjCHook::hook_message(1, 2, 0, &backend).err(),
        Some(HookError::NullArgument(Argument::Implementation))
    );
    assert_eq!(HookError::NullArgument(Argument::Class).message(), "Class is null");
    assert_eq!(HookError::NullArgument(Argument::Selector).message(), "Selector is null");
    assert_eq!(HookError::NullArgument(Argument::Implementation).message(), "Implementation is null");
}

fn printed(offset: usize, chunk: &[u8]) -> String {
    let mut line = format!("{:04x}: ", offset);
    for byte in chunk {
        line.push_str(&format!("{:02x} ", byte));
    }
    for _ in 0..(16 - chunk.len()) {
        line.push_str("   ");
    }
    line.push_str(" |");
    for &byte in chunk {
        line.push(if byte >= 0x20 && byte < 0x80 { byte as char } else { '.' });
    }
    line.push('|');
    line
}

#[test]
fn test_debug_hex_print() {
    let data = vec![0x00, 0x01, 0x02, 0x03, 0x04];
    let lines = cydia_substrate::debug::Debug::hex_dump(&data);
    assert_eq!(lines.len(), 1);
    assert_eq!(
        String::from_utf8(lines[0].clone()).unwrap(),
        "0000: 00 01 02 03 04                                   |.....|"
    );
}

#[test]
fn hex_lines_are_laid_out_as_the_formatter_does() {
    let text = b"Hello, hooks! \x7f\x80\xff\x1f rest of the data";
    let lines = cydia_substrate::debug::Debug::hex_dump(text);
    assert_eq!(lines.len(), 3);
    for (i, line) in lines.iter().enumerate() {
        let end = (16 * i + 16).min(text.len());
        assert_eq!(String::from_utf8(line.clone()).unwrap(), printed(16 * i, &text[16 * i..end]));
    }
    assert_eq!(
        String::from_utf8(lines[0].clone()).unwrap(),
        "0000: 48 65 6c 6c 6f 2c 20 68 6f 6f 6b 73 21 20 7f 80  |Hello, hooks! \u{7f}.|"
    );
    assert!(cydia_substrate::debug::Debug::hex_dump(&[]).is_empty());
    assert_eq!(cydia_substrate::debug::Debug::hex_dump(&[0u8; 32]).len(), 2);
    assert_eq!(cydia_substrate::debug::Debug::hex_dump(&[0u8; 33]).len(), 3);
}

#[test]
fn hex_line_offsets_grow_beyond_four_digits() {
    let line = |offset: usize| String::from_utf8(cydia_substrate::debug::Debug::hex_line(offset, &[0x41])).unwrap();
    assert_eq!(line(0), printed(0, &[0x41]));
    assert_eq!(line(0xfff0), printed(0xfff0, &[0x41]));
    assert_eq!(line(0x10000), printed(0x10000, &[0x41]));
    assert_eq!(line(usize::MAX), printed(usize::MAX, &[0x41]));
    assert!(line(0x12345).starts_with("12345: 41 "));
}
