use soprintln::Beacon;
use soprintln::label::{fit, instance_label, pad, thread_label};
use soprintln::line::{clock, compose, is_enabled, log_line, write_clock};
use soprintln::thread_id::{parse_unsigned, strip_prefix, strip_suffix, thread_number};

fn clock_tag(at: u32) -> String {
    let mut out = String::new();
    write_clock(&mut out, at);
    out
}

#[test]
fn test_soprintln() {
    assert!(is_enabled(Some("1")));
    let label = instance_label("soprintln");
    let line = log_line(
        &label,
        0x7f00_1234_5678,
        Some("main"),
        "ThreadId(1)",
        1_700_000_000_123,
        "test",
    );
    assert_eq!(
        line,
        "⏰\x1b[48;2;106;168;86m\x1b[38;2;255;255;255m00293\x1b[0m \
         📦\x1b[48;2;118;104;173m\x1b[38;2;226;223;240msoprintln   \x1b[0m \
         🧵\x1b[48;2;105;104;173m\x1b[38;2;223;223;240mmain                ·001\x1b[0m test"
    );
    assert!(line.ends_with(" test"));
}

#[test]
fn only_the_text_one_enables() {
    assert!(is_enabled(Some("1")));
    assert!(!is_enabled(None));
    assert!(!is_enabled(Some("")));
    assert!(!is_enabled(Some("0")));
    assert!(!is_enabled(Some("11")));
    assert!(!is_enabled(Some(" 1")));
    assert!(!is_enabled(Some("true")));
    assert!(!is_enabled(Some("１")));
}

#[test]
fn padding_fills_with_spaces() {
    assert_eq!(pad("", 0), "");
    assert_eq!(pad("", 3), "   ");
    assert_eq!(pad("ab", 5), "ab   ");
    assert_eq!(pad("abcde", 5), "abcde");
    assert_eq!(pad("abcdef", 5), "abcdef");
    assert_eq!(pad("é", 3), "é  ");
    assert_eq!(instance_label("soprintln"), "soprintln   ");
    assert_eq!(instance_label("a-package-with-a-long-name"), "a-package-with-a-long-name");
    assert_eq!(instance_label(""), " ".repeat(12));
}

#[test]
fn fitting_gives_twenty_characters() {
    assert_eq!(fit(""), " ".repeat(20));
    assert_eq!(fit("main"), "main                ");
    assert_eq!(fit("exactly-twenty-chars"), "exactly-twenty-chars");
    assert_eq!(fit("twenty-one-characters"), "twenty-o...haracters");
    assert_eq!(fit("a-very-long-thread-name-for-a-worker"), "a-very-l...-a-worker");
    for name in ["", "x", "tokio-runtime-worker", "tokio-runtime-worker-17", "ünïcödé-thread-näme-with-umlauts"] {
        assert_eq!(fit(name).chars().count(), 20);
    }
    assert_eq!(fit("ünïcödé-thread-näme-with-umlauts"), "ünïcödé-...h-umlauts");
}

#[test]
fn thread_labels_are_trimmed_first() {
    assert_eq!(thread_label(Some("main")), "main                ");
    assert_eq!(thread_label(Some("  main\t\n")), "main                ");
    assert_eq!(thread_label(Some("\u{a0}main\u{3000}")), "main                ");
    assert_eq!(thread_label(Some("  a-very-long-thread-name-for-a-worker \n")), "a-very-l...-a-worker");
    assert_eq!(thread_label(Some("   exactly-twenty-chars   ")), "exactly-twenty-chars");
    assert_eq!(thread_label(Some("two words")), "two words           ");
    assert_eq!(thread_label(Some("   ")), " ".repeat(20));
    assert_eq!(thread_label(None), "<unnamed>           ");
}

#[test]
fn prefixes_and_suffixes_come_off_once() {
    assert_eq!(strip_prefix("ThreadId(7)", "ThreadId("), "7)");
    assert_eq!(strip_prefix("threadId(7)", "ThreadId("), "threadId(7)");
    assert_eq!(strip_prefix("aab", "a"), "ab");
    assert_eq!(strip_prefix("abc", ""), "abc");
    assert_eq!(strip_prefix("ab", "abc"), "ab");
    assert_eq!(strip_prefix("abc", "abc"), "");
    assert_eq!(strip_suffix("7)", ")"), "7");
    assert_eq!(strip_suffix("7))", ")"), "7)");
    assert_eq!(strip_suffix("7", ")"), "7");
    assert_eq!(strip_suffix("", ")"), "");
    assert_eq!(strip_suffix("é)", ")"), "é");
    assert_eq!(strip_suffix("abc", "bc"), "a");
    assert_eq!(strip_suffix("abc", "ab"), "abc");
}

#[test]
fn numbers_are_read_as_the_standard_library_reads_them() {
    let texts = [
        "", "0", "7", "007", "+7", "+", "++7", "-7", "+-7", "7+", " 7", "7 ", "12a", "a", "１２",
        "18446744073709551615", "18446744073709551616", "+18446744073709551615",
        "99999999999999999999", "000000000000000000000000000001", "1844674407370955161",
        "184467440737095516150", "4294967296", "٣",
    ];
    for text in texts {
        assert_eq!(parse_unsigned(text), text.parse::<u64>().ok(), "{text:?}");
    }
    assert_eq!(parse_unsigned("18446744073709551615"), Some(u64::MAX));
    assert_eq!(parse_unsigned("18446744073709551616"), None);
    assert_eq!(parse_unsigned("+42"), Some(42));
    assert_eq!(parse_unsigned("4 2"), None);
}

#[test]
fn thread_numbers() {
    assert_eq!(thread_number("ThreadId(1)"), 1);
    assert_eq!(thread_number("ThreadId(12)"), 12);
    assert_eq!(thread_number("ThreadId(18446744073709551615)"), u64::MAX);
    assert_eq!(thread_number("ThreadId(18446744073709551616)"), 0);
    assert_eq!(thread_number("ThreadId()"), 0);
    assert_eq!(thread_number("ThreadId("), 0);
    assert_eq!(thread_number("ThreadId(x)"), 0);
    assert_eq!(thread_number("ThreadId(1))"), 0);
    assert_eq!(thread_number("ThreadId(ThreadId(1))"), 0);
    assert_eq!(thread_number("ThreadId(5"), 5);
    assert_eq!(thread_number("5)"), 5);
    assert_eq!(thread_number("5"), 5);
    assert_eq!(thread_number("+5"), 5);
    assert_eq!(thread_number(")"), 0);
    assert_eq!(thread_number(""), 0);
    assert_eq!(thread_number("threadid(5)"), 0);
}

#[test]
fn clock_starts_again_before_a_hundred_thousand() {
    assert_eq!(clock(0), 0);
    assert_eq!(clock(99_998), 99_998);
    assert_eq!(clock(99_999), 0);
    assert_eq!(clock(100_000), 1);
    assert_eq!(clock(1_700_000_000_123), 293);
    assert_eq!(clock(u128::MAX), (u128::MAX % 99_999) as u32);
}

#[test]
fn clock_is_white_on_a_colour_of_its_last_digits() {
    assert_eq!(clock_tag(0), "\x1b[48;2;168;86;86m\x1b[38;2;255;255;255m00000\x1b[0m");
    assert_eq!(clock_tag(1), "\x1b[48;2;168;87;86m\x1b[38;2;255;255;255m00001\x1b[0m");
    assert_eq!(clock_tag(42), "\x1b[48;2;168;107;86m\x1b[38;2;255;255;255m00042\x1b[0m");
    assert_eq!(clock_tag(500), "\x1b[48;2;86;168;168m\x1b[38;2;255;255;255m00500\x1b[0m");
    assert_eq!(clock_tag(998), "\x1b[48;2;168;86;87m\x1b[38;2;255;255;255m00998\x1b[0m");
    assert_eq!(clock_tag(999), "\x1b[48;2;168;86;86m\x1b[38;2;255;255;255m00999\x1b[0m");
    assert_eq!(clock_tag(1000), "\x1b[48;2;168;86;86m\x1b[38;2;255;255;255m01000\x1b[0m");
    assert_eq!(clock_tag(99_998), "\x1b[48;2;168;86;87m\x1b[38;2;255;255;255m99998\x1b[0m");
    assert_eq!(clock_tag(123_456), "\x1b[48;2;86;168;146m\x1b[38;2;255;255;255m123456\x1b[0m");
}

#[test]
fn a_line_is_made_of_its_four_parts() {
    let instance = Beacon::new("lib", 1).show_val(false);
    let thread = Beacon::new("worker", 12);
    let line = compose(5, &instance, &thread, "hello world");
    let expected = format!(
        "⏰{} 📦{} 🧵{} hello world",
        clock_tag(5),
        instance.render(),
        thread.render()
    );
    assert_eq!(line, expected);
    assert_eq!(line.matches("\x1b[0m").count(), 3);
}

#[test]
fn lines_from_what_the_process_knows() {
    assert_eq!(
        log_line("lib", 1, None, "ThreadId(12)", 99_999, ""),
        "⏰\x1b[48;2;168;86;86m\x1b[38;2;255;255;255m00000\x1b[0m \
         📦\x1b[48;2;105;104;173m\x1b[38;2;223;223;240mlib\x1b[0m \
         🧵\x1b[48;2;105;104;173m\x1b[38;2;223;223;240m<unnamed>           ·00c\x1b[0m "
    );
    assert_eq!(
        log_line(
            "mod         ",
            0,
            Some("  a-very-long-thread-name-for-a-worker \n"),
            "ThreadId(18446744073709551615)",
            5,
            "hello world",
        ),
        "⏰\x1b[48;2;168;89;86m\x1b[38;2;255;255;255m00005\x1b[0m \
         📦\x1b[48;2;173;104;104m\x1b[38;2;240;223;223mmod         \x1b[0m \
         🧵\x1b[48;2;104;119;173m\x1b[38;2;223;227;240ma-very-l...-a-worker·ffffffffffffffff\x1b[0m \
         hello world"
    );
}
