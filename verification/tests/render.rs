use rurt::preview::{
    colour_flag, command_of, frame_git, frame_listing, git_label, git_subcommand, hex_panels,
    indent, interpret_file, needs_binary_view, preview_header, run_preview, show_binary,
    show_text, PreviewCommand, PreviewLine, PreviewPlan, PreviewedData, Rendered, Showing, CONTENT_CAP,
};
use rurt::ui_state::URect;
use rurt::view::PreviewMode;

fn area(width: usize, height: usize) -> URect {
    URect { x: 0, y: 0, width, height }
}

fn header(line: &PreviewLine) -> (String, Vec<u8>) {
    match line {
        PreviewLine::Header { command, path } => (command.clone(), path.clone()),
        _ => panic!("a header was expected"),
    }
}

fn text(body: &[u8]) -> String {
    String::from_utf8_lossy(body).into_owned()
}

#[test]
fn indent_sets_every_line_in() {
    assert_eq!(indent(b"a\nb", b"  "), b"  a\n  b\n".to_vec());
    assert_eq!(indent(b"a\nb\n", b"  "), b"  a\n  b\n  \n".to_vec());
    assert_eq!(indent(b"", b"> "), b"> \n".to_vec());
    assert_eq!(indent(b"\n\n", b"-"), b"-\n-\n-\n".to_vec());
    assert_eq!(indent(b"x", b""), b"x\n".to_vec());
}

#[test]
fn header_sets_the_command_to_the_right() {
    assert_eq!(header(&preview_header("ls", b"/p")), ("   ls".to_string(), b"/p".to_vec()));
    assert_eq!(header(&preview_header("", b"")), ("     ".to_string(), Vec::new()));
    assert_eq!(header(&preview_header("hexyl", b"/p")).0, "hexyl");
    assert_eq!(header(&preview_header("g show", b"/p")).0, "g show");
    assert_eq!(header(&preview_header("\u{e9}\u{e9}", b"/p")).0, "   \u{e9}\u{e9}");
}

#[test]
fn content_is_read_up_to_the_cap() {
    assert_eq!(CONTENT_CAP, 1024 * 1024);
    let mut data = PreviewedData::default();
    assert!(matches!(data.command, PreviewCommand::Thinking));
    assert!(data.render.is_none());
    assert!(data.append(b"abc"));
    assert!(data.append(b"def"));
    assert_eq!(data.content, b"abcdef".to_vec());
    let chunk = vec![7u8; 1024];
    for _ in 0..1023 {
        assert!(data.append(&chunk));
    }
    assert_eq!(data.content.len(), 6 + 1023 * 1024);
    // of the chunk that crosses the cap only what fits is taken
    let last: Vec<u8> = (0..1024).map(|i| (i % 251) as u8).collect();
    assert!(!data.append(&last));
    assert_eq!(data.content.len(), CONTENT_CAP);
    assert_eq!(data.content[CONTENT_CAP - 1018..], last[..1018]);
    assert!(!data.append(b"more"));
    assert_eq!(data.content.len(), CONTENT_CAP);
}

#[test]
fn content_of_exactly_the_cap_is_full() {
    let mut data = PreviewedData::default();
    assert!(data.append(&vec![0u8; CONTENT_CAP - 1]));
    assert!(!data.append(b"x"));
    assert_eq!(data.content.len(), CONTENT_CAP);
    assert!(!data.append(b"y"));
    assert_eq!(data.content.len(), CONTENT_CAP);
    assert_eq!(data.content[CONTENT_CAP - 1], b'x');
    let mut data = PreviewedData::default();
    assert!(!data.append(&vec![1u8; CONTENT_CAP + 5]));
    assert_eq!(data.content, vec![1u8; CONTENT_CAP]);
    let mut data = PreviewedData::default();
    assert!(data.append(b""));
    assert!(data.content.is_empty());
}

#[test]
fn failure_is_cut_at_the_cap_too() {
    let mut data = PreviewedData::default();
    assert!(data.append(&vec![0u8; CONTENT_CAP - 3]));
    data.fail("gone");
    assert_eq!(data.content.len(), CONTENT_CAP);
    assert_eq!(data.content[CONTENT_CAP - 3..], b"Err"[..]);
}

#[test]
fn failure_is_shown_in_place_of_content() {
    let mut data = PreviewedData::default();
    data.append(b"partial");
    data.fail("No such file or directory (os error 2)");
    assert_eq!(data.content, b"partialError: No such file or directory (os error 2)\n".to_vec());
    assert!(data.render.is_none());
    let mut data = PreviewedData::default();
    data.fail("");
    assert_eq!(data.content, b"Error: \n".to_vec());
}

#[test]
fn job_shows_what_it_has() {
    let mut data = PreviewedData::default();
    assert_eq!(data.showing(), Showing::Nothing);
    data.render = Some(Rendered { head: vec![], body: vec![] });
    assert_eq!(data.showing(), Showing::Nothing);
    data.render = None;
    data.command = PreviewCommand::InterpretFile;
    assert_eq!(data.showing(), Showing::RawFile);
    data.command = PreviewCommand::Custom("ls".to_string());
    assert_eq!(data.showing(), Showing::RawOutput);
    data.render = Some(Rendered { head: vec![], body: vec![] });
    assert_eq!(data.showing(), Showing::Rendered);
    data.command = PreviewCommand::InterpretFile;
    assert_eq!(data.showing(), Showing::Rendered);
}

#[test]
fn colour_flag_is_a_switch() {
    assert_eq!(colour_flag(true), "--color=always");
    assert_eq!(colour_flag(false), "--color=never");
}

#[test]
fn content_of_a_file_is_read() {
    let plan = run_preview(b"/p/a.txt", true, PreviewMode::Content, true);
    assert!(matches!(plan, PreviewPlan::ReadFile));
    assert!(matches!(command_of(&plan), PreviewCommand::InterpretFile));
}

#[test]
fn content_of_what_is_no_file_is_listed() {
    let plan = run_preview(b"/p/dir", false, PreviewMode::Content, false);
    match &plan {
        PreviewPlan::List { args } => {
            assert_eq!(
                args,
                &vec![b"/p/dir".to_vec(), b"-al".to_vec(), b"--color=never".to_vec()]
            );
        }
        _ => panic!("a listing was expected"),
    }
    match command_of(&plan) {
        PreviewCommand::Custom(name) => assert_eq!(name, "ls"),
        _ => panic!("a command was expected"),
    }
}

#[test]
fn git_modes_run_git() {
    assert_eq!(git_subcommand(PreviewMode::Content), None);
    assert_eq!(git_subcommand(PreviewMode::GitLg), Some("lg"));
    assert_eq!(git_subcommand(PreviewMode::GitShow), Some("show"));
    assert_eq!(git_label("lg"), "g lg");
    for is_file in [true, false] {
        let plan = run_preview(b"/p/a", true, PreviewMode::GitLg, is_file);
        match &plan {
            PreviewPlan::Git { subcommand, args } => {
                assert_eq!(*subcommand, "lg");
                assert_eq!(
                    args,
                    &vec![b"lg".to_vec(), b"--color=always".to_vec(), b"/p/a".to_vec()]
                );
            }
            _ => panic!("git was expected"),
        }
        match command_of(&plan) {
            PreviewCommand::Custom(name) => assert_eq!(name, "g lg"),
            _ => panic!("a command was expected"),
        }
    }
    match run_preview(b"/p/a", false, PreviewMode::GitShow, true) {
        PreviewPlan::Git { subcommand, args } => {
            assert_eq!(subcommand, "show");
            assert_eq!(
                args,
                vec![b"show".to_vec(), b"--color=never".to_vec(), b"/p/a".to_vec()]
            );
        }
        _ => panic!("git was expected"),
    }
}

#[test]
fn listing_is_framed() {
    let Rendered { head, body } = frame_listing(b"/p/dir", b"total 0\r\nfile");
    assert_eq!(head.len(), 1);
    assert_eq!(header(&head[0]), ("   ls".to_string(), b"/p/dir".to_vec()));
    assert_eq!(body, b"     total 0\r\n     file\n".to_vec());
}

#[test]
fn git_output_is_framed_without_carriage_returns() {
    let Rendered { head, body } = frame_git(b"/p/a", "show", b"commit 1\r\n\r\nmessage\r\n");
    assert_eq!(head.len(), 1);
    assert_eq!(header(&head[0]), ("g show".to_string(), b"/p/a".to_vec()));
    assert_eq!(body, b" commit 1\n \n message\n \n".to_vec());
}

#[test]
fn hex_panels_follow_the_width() {
    assert_eq!(hex_panels(0), 1);
    assert_eq!(hex_panels(10), 1);
    assert_eq!(hex_panels(44), 1);
    assert_eq!(hex_panels(45), 1);
    assert_eq!(hex_panels(79), 1);
    assert_eq!(hex_panels(80), 2);
    assert_eq!(hex_panels(115), 3);
    assert_eq!(hex_panels(65535), 1872);
    assert_eq!(hex_panels(65580), 1872);
    assert_eq!(hex_panels(usize::MAX), 1872);
}

#[test]
fn text_and_binary_content_are_told_apart() {
    assert!(!needs_binary_view(b""));
    assert!(!needs_binary_view(b"plain text\n"));
    assert!(needs_binary_view(b"with a \0 byte"));
    assert!(needs_binary_view(b"\x89PNG\r\n\x1a\n"));
    assert!(!needs_binary_view(b"\xef\xbb\xbftext with a mark"));
}

#[test]
fn text_is_highlighted_under_a_header() {
    let shown = interpret_file(b"fn main() {}\r\nlet x = 1;\r\n", b"/p/main.rs", area(80, 50), false, None);
    assert_eq!(shown.head.len(), 1);
    assert_eq!(header(&shown.head[0]), ("  bat".to_string(), b"/p/main.rs".to_vec()));
    let body = text(&shown.body);
    assert!(body.contains("fn main() {}"));
    assert!(body.contains("let x = 1;"));
    assert!(!body.contains('\r'));
    assert!(body.contains('1'));
    assert!(body.contains('2'));
    assert!(!body.contains('\u{1b}'));
}

#[test]
fn coloured_text_carries_escape_sequences() {
    let shown = interpret_file(b"fn main() {}\n", b"/p/main.rs", area(80, 50), true, None);
    assert!(text(&shown.body).contains('\u{1b}'));
}

#[test]
fn highlighting_stops_near_the_height_of_the_area() {
    let mut content = Vec::new();
    for i in 0..1000 {
        content.extend_from_slice(format!("line {}\n", i).as_bytes());
    }
    let shown = interpret_file(&content, b"/p/long.txt", area(80, 10), false, None);
    let body = text(&shown.body);
    let lines = body.matches('\n').count();
    assert!(lines >= 10);
    assert!(lines < 1000);
    assert!(body.contains("line 0"));
    assert!(!body.contains("line 999"));
}

#[test]
fn picture_is_shown_as_it_was_made() {
    let shown = interpret_file(b"\x89PNG\0\0", b"/p/a.png", area(80, 10), true, Some(b"PIXELS".to_vec()));
    assert!(shown.head.is_empty());
    assert_eq!(shown.body, b"PIXELS".to_vec());
    // text is never shown as a picture
    let shown = interpret_file(b"text", b"/p/a.txt", area(80, 10), false, Some(b"PIXELS".to_vec()));
    assert_eq!(shown.head.len(), 1);
    assert!(text(&shown.body).contains("text"));
}

#[test]
fn binary_content_without_a_picture_is_dumped() {
    let content = b"\x7fELF\x02\x01\x01\0\0\0\0\0\0\0\0\0rest of it";
    let shown = interpret_file(content, b"/p/a.out", area(80, 10), false, None);
    let last = shown.head.last().unwrap();
    assert_eq!(header(last), ("hexyl".to_string(), b"/p/a.out".to_vec()));
    let body = text(&shown.body);
    assert!(body.contains("7f 45 4c 46"));
    assert!(body.contains("00000000"));
}

#[test]
fn known_formats_are_named_above_the_dump() {
    let png = b"\x89PNG\r\n\x1a\n\0\0\0\rIHDR\0\0\0\x01\0\0\0\x01\x08\x06\0\0\0";
    let shown = show_binary(png, b"/p/a.png", area(120, 10), false);
    assert_eq!(shown.head.len(), 4);
    assert_eq!(header(&shown.head[0]), (" file".to_string(), b"/p/a.png".to_vec()));
    match &shown.head[1] {
        PreviewLine::Dim(name) => assert!(name.contains("Portable Network Graphics")),
        _ => panic!("the name of the format was expected"),
    }
    assert!(matches!(shown.head[2], PreviewLine::Blank));
    assert_eq!(header(&shown.head[3]), ("hexyl".to_string(), b"/p/a.png".to_vec()));
    assert!(text(&shown.body).contains("89 50 4e 47"));
}

#[test]
fn dump_goes_by_content_width_and_height() {
    let content = b"\x7fELF some bytes that are no text \0\0\0 and more of them to fill lines";
    let narrow = show_binary(content, b"/p/x", area(40, 10), false);
    let again = show_binary(content, b"/q/y", area(40, 10), false);
    let wide = show_binary(content, b"/p/x", area(120, 10), false);
    let short = show_binary(content, b"/p/x", area(40, 2), false);
    let coloured = show_binary(content, b"/p/x", area(40, 10), true);
    assert_eq!(narrow.body, again.body);
    assert_ne!(narrow.body, wide.body);
    assert_ne!(narrow.body, short.body);
    assert_ne!(narrow.body, coloured.body);
    assert!(narrow.body.starts_with(&short.body));
}

#[test]
fn dump_stops_near_the_height_of_the_area() {
    let content = vec![0xabu8; 64 * 1024];
    let mut varied = content.clone();
    for (i, b) in varied.iter_mut().enumerate() {
        *b = (i % 251) as u8;
    }
    let shown = show_binary(&varied, b"/p/blob", area(80, 5), false);
    let lines = text(&shown.body).matches('\n').count();
    assert!(lines >= 5);
    assert!(lines < 100);
}

#[test]
fn text_is_shown_under_its_header() {
    let shown = show_text(b"/root/notes.txt", "one\ntwo\n");
    assert_eq!(shown.body, b"one\ntwo\n".to_vec());
    assert_eq!(shown.head.len(), 1);
    let (command, path) = header(&shown.head[0]);
    assert_eq!(command, "  bat");
    assert_eq!(path, b"/root/notes.txt".to_vec());
    let shown = show_text(b"", "");
    assert!(shown.body.is_empty());
    assert_eq!(shown.head.len(), 1);
}
