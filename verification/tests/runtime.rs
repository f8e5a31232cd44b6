use netsblox_vm_esp32::reply::{AsyncResult, ReplyTable};
use netsblox_vm_esp32::ring::LineRing;
use netsblox_vm_esp32::runtime::{Input, RuntimeContext, ServerCommand};
use netsblox_vm_esp32::text::{decimal, split_lines};

#[test]
fn decimal_writes_numbers() {
    assert_eq!(decimal(0), "0");
    assert_eq!(decimal(9), "9");
    assert_eq!(decimal(10), "10");
    assert_eq!(decimal(1500), "1500");
    assert_eq!(decimal(u64::MAX), "18446744073709551615");
}

#[test]
fn lines_are_split_at_line_ends() {
    assert_eq!(split_lines(""), Vec::<String>::new());
    assert_eq!(split_lines("a\nb\n"), vec!["a", "b"]);
    assert_eq!(split_lines("a\n\nb"), vec!["a", "", "b"]);
    assert_eq!(split_lines("\n"), vec![""]);
    assert_eq!(split_lines("żółw\nx"), vec!["żółw", "x"]);
}

#[test]
fn ring_keeps_the_newest_whole_lines() {
    let mut ring = LineRing::new(21);
    ring.push_line("hello world");
    ring.push_line("this is a test");
    assert_eq!(ring.drain(), "this is a test\n");
    assert_eq!(ring.drain(), "");
    ring.push_line("this is a test");
    ring.push_line("small");
    ring.push_line("a");
    assert_eq!(ring.drain(), "small\na\n");
    ring.push_line("this is a really long line that will go over the limit");
    assert_eq!(ring.drain(), "");
    ring.push_line("one\ntwo\nthree\nfour\nfive");
    assert_eq!(ring.drain(), "two\nthree\nfour\nfive\n");
    ring.push_line("");
    ring.push_line("b");
    assert_eq!(ring.drain(), "\nb\n");
}

#[test]
fn ring_counts_bytes_and_cuts_between_characters() {
    let mut ring = LineRing::new(7);
    ring.push_line("한");
    ring.push_line("ab");
    assert_eq!(ring.drain(), "한\nab\n");
    ring.push_line("한");
    ring.push_line("abc");
    assert_eq!(ring.drain(), "abc\n");
    ring.push_line("abcdef");
    ring.push_line("한국");
    assert_eq!(ring.drain(), "한국\n");
    let mut none = LineRing::new(0);
    none.push_line("x");
    assert_eq!(none.drain(), "");
}

#[test]
fn context_boots_running_with_a_greeting() {
    let mut context = RuntimeContext::new();
    assert!(context.running());
    let status = context.pull();
    assert!(status.running);
    assert_eq!(status.output, "\n>>> booting...\n\n");
    assert!(status.errors.is_empty());
    assert!(context.take_command().is_none());
}

#[test]
fn pull_takes_everything_once() {
    let mut context = RuntimeContext::new();
    context.pull();
    context.print("line1");
    context.print("line2");
    context.print("line3");
    context.report_error("boom", "{\"cause\":\"boom\"}");
    context.report_error("bang", "{\"cause\":\"bang\"}");
    let status = context.pull();
    assert!(status.running);
    assert_eq!(status.output, "line1\nline2\nline3\n\n>>> error boom\n\n\n>>> error bang\n\n");
    assert_eq!(status.errors, vec!["{\"cause\":\"boom\"}", "{\"cause\":\"bang\"}"]);
    assert_eq!(
        status.render(),
        "{\"running\":true,\"output\":\"line1\\nline2\\nline3\\n\\n>>> error boom\\n\\n\\n>>> error bang\\n\\n\",\"errors\":[{\"cause\":\"boom\"},{\"cause\":\"bang\"}]}"
    );
    let again = context.pull();
    assert_eq!(again.output, "");
    assert!(again.errors.is_empty());
    assert_eq!(again.render(), "{\"running\":true,\"output\":\"\",\"errors\":[]}");
}

#[test]
fn prints_name_their_entity() {
    let mut context = RuntimeContext::new();
    context.pull();
    assert_eq!(context.say("Entity \"Stage\"", "\"hello\""), "Entity \"Stage\" > \"hello\"");
    assert_eq!(context.say("a", ""), "a > ");
    assert_eq!(context.pull().output, "Entity \"Stage\" > \"hello\"\na > \n");
}

#[test]
fn output_is_bounded() {
    let mut context = RuntimeContext::new();
    let line = "x".repeat(1023);
    for _ in 0..40 {
        context.print(&line);
    }
    let status = context.pull();
    assert_eq!(status.output.len(), 32 * 1024);
    assert!(status.output.ends_with('\n'));
    assert_eq!(status.output.lines().count(), 32);
}

#[test]
fn commands_leave_in_the_order_in_which_they_came() {
    let mut context = RuntimeContext::new();
    context.enqueue(ServerCommand::Input(Input::Start));
    context.enqueue(ServerCommand::SetProject("<xml/>".into()));
    context.enqueue(ServerCommand::Input(Input::Stop));
    assert!(matches!(context.take_command(), Some(ServerCommand::Input(Input::Start))));
    assert!(matches!(context.take_command(), Some(ServerCommand::SetProject(xml)) if xml == "<xml/>"));
    assert!(matches!(context.take_command(), Some(ServerCommand::Input(Input::Stop))));
    assert!(context.take_command().is_none());
}

#[test]
fn start_ends_a_pause_and_stop_does_not() {
    let mut context = RuntimeContext::new();
    context.toggle_paused();
    assert!(!context.running());
    context.apply_input(Input::Stop);
    assert!(!context.running());
    context.apply_input(Input::Start);
    assert!(context.running());
    context.apply_input(Input::Stop);
    assert!(context.running());
    context.toggle_paused();
    context.toggle_paused();
    assert!(context.running());
}

#[test]
fn reply_completes_empty_after_the_timeout() {
    let mut table: ReplyTable<i32> = ReplyTable::new();
    let key = table.expect(1000);
    assert_eq!(key.len(), 36);
    assert!(matches!(table.poll(&key, 1000), AsyncResult::Pending));
    assert!(matches!(table.poll(&key, 2500), AsyncResult::Pending));
    assert!(table.awaits(&key));
    assert!(matches!(table.poll(&key, 2501), AsyncResult::Completed(None)));
    assert!(!table.awaits(&key));
}

#[test]
fn reply_in_time_completes_with_the_value() {
    let mut table: ReplyTable<i32> = ReplyTable::new();
    let key = table.expect(0);
    let other = table.expect(0);
    assert_ne!(key, other);
    table.deliver(&key, 42);
    assert!(matches!(table.poll(&key, 99_999), AsyncResult::Completed(Some(42))));
    assert!(!table.awaits(&key));
    assert!(table.awaits(&other));
    assert!(matches!(table.poll(&other, 1500), AsyncResult::Pending));
}

#[test]
fn first_reply_wins_and_strays_are_dropped() {
    let mut table: ReplyTable<&str> = ReplyTable::new();
    table.insert("a".into(), 10);
    table.deliver("a", "first");
    table.deliver("a", "second");
    table.deliver("b", "stray");
    assert!(!table.awaits("b"));
    assert!(matches!(table.poll("a", 0), AsyncResult::Completed(Some("first"))));
    table.deliver("a", "late");
    assert!(!table.awaits("a"));
}

#[test]
fn expiry_does_not_overflow() {
    let mut table: ReplyTable<u8> = ReplyTable::new();
    let key = table.expect(u64::MAX - 3);
    assert!(matches!(table.poll(&key, u64::MAX), AsyncResult::Pending));
}
