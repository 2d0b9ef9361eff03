use strace_analyzer::summary::is_noise;
use strace_analyzer::text::{same_text, starts_with, to_decimal};
use strace_analyzer::{
    compact, humanize, FileDescription, GenericFileDescriptor, Histogram, Report,
    SocketDescription, Summary,
};

fn lines(r: Report) -> (Option<String>, Option<String>) {
    match r {
        Report::Lines { read, write } => (read, write),
        Report::Suppressed => panic!("suppressed"),
        Report::NoIo { message } => panic!("no I/O: {}", message),
    }
}

#[test]
fn reset_clears_everything_for_each_kind() {
    for mut s in vec![
        Summary::file("/home/user/a".to_string()),
        Summary::pipe(),
        Summary::socket(),
    ] {
        s.update_read(10, 7);
        s.update_write(20, 9);
        s.update_write(20, 1);
        s.reset();
        assert_eq!(s.read_count(10), 0);
        assert_eq!(s.write_count(20), 0);
        assert_eq!(s.read_bytes(), 0);
        assert_eq!(s.write_bytes(), 0);
        assert!(matches!(s.show(true), Report::NoIo { .. }));
    }
}

#[test]
fn reset_keeps_the_kind() {
    let mut s = Summary::file("/home/user/a".to_string());
    s.update_read(1, 1);
    s.reset();
    assert_eq!(s.descriptor.to_string(), "FILE Path:/home/user/a");
}

#[test]
fn repeated_reads_add_up() {
    let mut s = Summary::socket();
    let bytes = [100u64, 0, 4096, 17, 5];
    for b in bytes {
        s.update_read(4096, b);
    }
    assert_eq!(s.read_count(4096), 5);
    assert_eq!(s.read_count(100), 0);
    assert_eq!(s.read_bytes(), 4218);
    assert_eq!(s.write_bytes(), 0);
}

#[test]
fn repeated_writes_add_up() {
    let mut s = Summary::pipe();
    for b in [3u64, 4, 5] {
        s.update_write(8, b);
    }
    assert_eq!(s.write_count(8), 3);
    assert_eq!(s.write_bytes(), 12);
    assert_eq!(s.read_count(8), 0);
}

#[test]
fn totals_saturate() {
    let mut s = Summary::socket();
    s.update_read(1, u64::MAX);
    s.update_read(1, 5);
    assert_eq!(s.read_bytes(), u64::MAX);
    assert_eq!(s.read_count(1), 2);
}

#[test]
fn fresh_summary_gives_only_a_diagnostic() {
    let s = Summary::file("/home/user/data.bin".to_string());
    for verbose in [false, true] {
        match s.show(verbose) {
            Report::NoIo { message } => {
                assert_eq!(message, "no I/O with FILE Path:/home/user/data.bin")
            }
            _ => panic!("expected a diagnostic"),
        }
    }
    match Summary::socket().show(false) {
        Report::NoIo { message } => assert_eq!(message, "no I/O with SOCKET Bind: Connect:"),
        _ => panic!("expected a diagnostic"),
    }
    assert!(matches!(Summary::pipe().show(false), Report::Suppressed));
    match Summary::pipe().show(true) {
        Report::NoIo { message } => assert_eq!(message, "no I/O with PIPE"),
        _ => panic!("expected a diagnostic"),
    }
}

#[test]
fn system_file_is_filtered() {
    let mut s = Summary::file("/etc/passwd".to_string());
    s.update_read(4096, 2000);
    assert!(matches!(s.show(false), Report::Suppressed));
    let (read, write) = lines(s.show(true));
    assert_eq!(
        read.unwrap(),
        "read 2.0K with 1 ops (4.0K / op) FILE Path:/etc/passwd"
    );
    assert!(write.is_none());
}

#[test]
fn pipe_is_filtered() {
    let mut s = Summary::pipe();
    s.update_read(10, 10);
    s.update_write(20, 20);
    assert!(matches!(s.show(false), Report::Suppressed));
    let (read, write) = lines(s.show(true));
    assert_eq!(read.unwrap(), "read 10B with 1 ops (10B / op) PIPE");
    assert_eq!(write.unwrap(), "write 20B with 1 ops (20B / op) PIPE");
}

#[test]
fn largest_size_wins_over_most_frequent() {
    let mut s = Summary::socket();
    for _ in 0..10 {
        s.update_read(64, 64);
    }
    s.update_read(4096, 4096);
    let (read, _) = lines(s.show(false));
    let read = read.unwrap();
    assert!(read.contains("with 11 ops (4.0K / op)"), "{}", read);
    assert!(!read.contains("(64B / op)"));
}

#[test]
fn humanize_golden_values() {
    assert_eq!(humanize(0), "0B");
    assert_eq!(humanize(1024), "1.0K");
    assert_eq!(humanize(1536), "1.5K");
    for b in [0u64, 1, 1023, 1024, 1536, 4096, 12788, 1 << 20, 3 << 30, u64::MAX] {
        let h = humanize(b);
        assert!(!h.chars().any(|c| c.is_whitespace()), "{}", h);
        assert!(!h.chars().any(|c| c.is_lowercase()), "{}", h);
    }
}

#[test]
fn humanize_more_values() {
    assert_eq!(humanize(1), "1B");
    assert_eq!(humanize(1023), "1023B");
    assert_eq!(humanize(1 << 20), "1.0M");
    assert_eq!(humanize(12788), "12.5K");
}

#[test]
fn end_to_end_read_line() {
    let mut s = Summary::file("/home/user/data.bin".to_string());
    s.update_read(4096, 4096);
    s.update_read(4096, 4096);
    s.update_read(4096, 4096);
    s.update_read(1024, 500);
    assert_eq!(s.read_bytes(), 12788);
    let (read, write) = lines(s.show(false));
    assert_eq!(
        read.unwrap(),
        "read 12.5K with 4 ops (4.0K / op) FILE Path:/home/user/data.bin"
    );
    assert!(write.is_none());
}

#[test]
fn write_line_only() {
    let mut s = Summary::file("out.txt".to_string());
    s.update_write(512, 512);
    s.update_write(512, 100);
    let (read, write) = lines(s.show(false));
    assert!(read.is_none());
    assert_eq!(write.unwrap(), "write 612B with 2 ops (512B / op) FILE Path:out.txt");
}

#[test]
fn compact_strips_unit_suffix_and_spaces() {
    assert_eq!(compact("1.5 kiB"), "1.5k");
    assert_eq!(compact("0 B"), "0B");
    assert_eq!(compact("iiBB"), "iB");
    assert_eq!(compact(" a b "), "ab");
    assert_eq!(compact(""), "");
}

#[test]
fn noise_paths() {
    for p in [
        "/dev/null", "STDOUT", "STDERR", "STDIN", "DUP", "/bin/ls", "/etc/passwd",
        "/lib/x.so", "/lib64/ld.so", "/opt/a", "/proc/self/maps", "/run/x", "/sbin/init",
        "/sys/kernel", "/tmp/f", "/usr/lib/y",
    ] {
        assert!(is_noise(p), "{}", p);
    }
    for p in ["", "/home/user/a", "/dev/null2", "/bin", "/usr", "stdout", "/lib64", "tmp/x"] {
        assert!(!is_noise(p), "{}", p);
    }
}

#[test]
fn hidden_only_when_not_verbose() {
    let f = GenericFileDescriptor::File(FileDescription::new("STDOUT".to_string()));
    assert!(f.is_hidden(false));
    assert!(!f.is_hidden(true));
    let s = GenericFileDescriptor::Socket(SocketDescription::new());
    assert!(!s.is_hidden(false));
    assert!(GenericFileDescriptor::Pipe.is_hidden(false));
    assert!(!GenericFileDescriptor::Pipe.is_hidden(true));
}

#[test]
fn descriptor_texts() {
    let f = FileDescription::new("/a/b".to_string());
    assert_eq!(f.to_string(), "FILE Path:/a/b");
    let mut s = SocketDescription::new();
    assert_eq!(s.to_string(), "SOCKET Bind: Connect:");
    s.set_endpoints("0.0.0.0:80".to_string(), "10.0.0.1:5000".to_string());
    assert_eq!(s.to_string(), "SOCKET Bind:0.0.0.0:80 Connect:10.0.0.1:5000");
    let g = GenericFileDescriptor::Socket(s);
    assert_eq!(g.to_string(), "SOCKET Bind:0.0.0.0:80 Connect:10.0.0.1:5000");
    assert_eq!(GenericFileDescriptor::Pipe.to_string(), "PIPE");
    assert_eq!(
        GenericFileDescriptor::File(FileDescription::new(String::new())).to_string(),
        "FILE Path:"
    );
}

#[test]
fn histogram_counts_and_maximum() {
    let mut h = Histogram::new();
    assert!(h.is_empty());
    h.bump(64);
    h.bump(4096);
    h.bump(64);
    h.bump(7);
    assert!(!h.is_empty());
    assert_eq!(h.count(64), 2);
    assert_eq!(h.count(4096), 1);
    assert_eq!(h.count(5), 0);
    assert_eq!(h.total_ops(), 4);
    assert_eq!(h.max_size(), 4096);
    h.clear();
    assert!(h.is_empty());
    assert_eq!(h.total_ops(), 0);
}

#[test]
fn text_helpers() {
    assert_eq!(to_decimal(0), "0");
    assert_eq!(to_decimal(7), "7");
    assert_eq!(to_decimal(12788), "12788");
    assert_eq!(to_decimal(u64::MAX), "18446744073709551615");
    assert!(starts_with("/etc/passwd", "/etc/"));
    assert!(starts_with("abc", ""));
    assert!(!starts_with("/et", "/etc/"));
    assert!(same_text("DUP", "DUP"));
    assert!(!same_text("DUP", "DUPE"));
}
