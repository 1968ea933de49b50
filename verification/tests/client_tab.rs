use termmux::mux::tab::IdCounter;
use termmux::pty::PtySize;
use termmux::server::pdu::{
    DirtyLine, GetCoarseTabRenderableData, GetCoarseTabRenderableDataResponse, Resize,
    SendKeyDown, SendMouseEvent, SendMouseEventResponse,
};
use termmux::server::tab::{ClientTab, PollFailed, PollReply, RenderableState, POLL_INTERVAL};
use termmux::term::{
    CursorPosition, Hyperlink, KeyCode, KeyEvent, KeyModifiers, Line, MouseButton, MouseEvent,
    MouseEventKind, MOD_CTRL,
};

const MS: u64 = 1_000_000;

fn response(lines: usize, title: &str) -> GetCoarseTabRenderableDataResponse {
    GetCoarseTabRenderableDataResponse {
        cursor_position: CursorPosition { x: 3, y: 4 },
        physical_rows: 30,
        physical_cols: 100,
        current_highlight: None,
        dirty_lines: (0..lines)
            .map(|i| DirtyLine {
                line_idx: i,
                line: Line {
                    cells: vec![i as u8; 2],
                },
                selection_col_from: i,
                selection_col_to: i + 1,
            })
            .collect(),
        title: title.to_string(),
    }
}

#[test]
fn poll_interval_is_50_ms() {
    assert_eq!(POLL_INTERVAL, 50 * MS);
}

#[test]
fn a_new_tab_asks_for_everything_at_once() {
    let mut state = RenderableState::new(9, 1000);
    assert!(state.wants_all());
    assert!(!state.is_dead());
    assert_eq!(
        state.poll(1000, PollReply::Pending),
        Ok(Some(GetCoarseTabRenderableData {
            tab_id: 9,
            dirty_all: true
        }))
    );
    assert!(state.is_polling());
    assert!(!state.wants_all());
    // one request at a time
    assert_eq!(state.poll(1000 + 500 * MS, PollReply::Pending), Ok(None));
    assert!(state.is_polling());
}

#[test]
fn dirty_all_poll_then_paint_then_quiet() {
    let mut state = RenderableState::new(9, 0);
    // the first answer, to get past the start
    state.poll(0, PollReply::Pending).unwrap();
    state.poll(MS, PollReply::Ready(response(0, "t"))).unwrap();
    assert!(!state.is_polling());

    state.make_all_lines_dirty();
    let now = 2 * MS;
    // within 50 ms of the last answer, and still it polls: everything is wanted
    let (dirty, request) = state.has_dirty_lines(now, PollReply::Pending);
    assert!(!dirty);
    assert_eq!(
        request,
        Some(GetCoarseTabRenderableData {
            tab_id: 9,
            dirty_all: true
        })
    );
    // the answer brings 24 lines
    let now = 3 * MS;
    let (dirty, request) = state.has_dirty_lines(now, PollReply::Ready(response(24, "t")));
    assert!(dirty);
    assert_eq!(request, None);
    assert_eq!(state.last_poll(), now);
    let lines = state.get_dirty_lines();
    assert_eq!(lines.len(), 24);
    for (i, (idx, line, from, to)) in lines.iter().enumerate() {
        assert_eq!(*idx, i);
        assert_eq!(line.cells, vec![i as u8; 2]);
        assert_eq!((*from, *to), (i, i + 1));
    }
    state.clean_dirty_lines();
    assert!(state.get_dirty_lines().is_empty());
    assert_eq!(state.physical_dimensions(), (30, 100));
    // within 50 ms: no dirty lines, and no poll
    let (dirty, request) = state.has_dirty_lines(now + 49 * MS, PollReply::Pending);
    assert!(!dirty);
    assert_eq!(request, None);
    assert!(!state.is_polling());
    // 50 ms after the answer the next poll goes out, for what changed
    let (_, request) = state.has_dirty_lines(now + 50 * MS, PollReply::Pending);
    assert_eq!(
        request,
        Some(GetCoarseTabRenderableData {
            tab_id: 9,
            dirty_all: false
        })
    );
}

#[test]
fn requests_are_at_least_50_ms_apart() {
    let mut state = RenderableState::new(1, 0);
    let mut sent = Vec::new();
    let mut answer_due = None;
    let mut now = 0;
    while now < 1000 * MS {
        let reply = match answer_due {
            Some(due) if now >= due => {
                answer_due = None;
                PollReply::Ready(response(0, ""))
            }
            _ => PollReply::Pending,
        };
        if let Ok(Some(_)) = state.poll(now, reply) {
            sent.push(now);
            answer_due = Some(now + 7 * MS);
        }
        now += 3 * MS;
    }
    assert!(sent.len() > 10);
    for pair in sent.windows(2) {
        assert!(pair[1] - pair[0] >= POLL_INTERVAL, "{:?}", pair);
    }
}

#[test]
fn a_failed_request_leaves_the_tab_dead_for_good() {
    let mut tab = ClientTab::new(2, &mut IdCounter::new(), 5, 0);
    assert!(!tab.is_dead());
    tab.renderable.poll(0, PollReply::Pending).unwrap();
    let (dirty, request) = tab.renderable.has_dirty_lines(MS, PollReply::Failed);
    assert!(!dirty);
    assert_eq!(request, None);
    assert!(tab.is_dead());
    assert!(!tab.renderable.is_polling());
    // it still polls, and stays dead when an answer comes
    let (_, request) = tab.renderable.has_dirty_lines(60 * MS, PollReply::Pending);
    assert!(request.is_some());
    tab.renderable
        .has_dirty_lines(61 * MS, PollReply::Ready(response(1, "x")));
    assert!(tab.is_dead());
}

#[test]
fn poll_tells_a_failure() {
    let mut state = RenderableState::new(1, 0);
    state.poll(0, PollReply::Pending).unwrap();
    assert_eq!(state.poll(5, PollReply::Failed), Err(PollFailed {}));
    assert!(!state.is_dead());
    // a failure that no request can have had is no failure
    assert_eq!(state.poll(6, PollReply::Failed), Ok(None));
}

#[test]
fn a_clock_that_runs_backwards_counts_as_standing_still() {
    let mut state = RenderableState::new(1, 100 * MS);
    state.poll(100 * MS, PollReply::Pending).unwrap();
    state
        .poll(100 * MS, PollReply::Ready(response(0, "")))
        .unwrap();
    assert_eq!(state.poll(10 * MS, PollReply::Pending), Ok(None));
}

#[test]
fn before_the_first_answer_the_tab_is_24_by_80() {
    let state = RenderableState::new(1, 0);
    assert_eq!(state.physical_dimensions(), (24, 80));
    assert_eq!(state.get_cursor_position(), CursorPosition { x: 0, y: 0 });
    assert_eq!(state.get_cursor_position(), CursorPosition::default());
    assert!(state.get_dirty_lines().is_empty());
    assert_eq!(state.current_highlight(), None);
}

#[test]
fn the_last_answer_is_what_is_shown() {
    let mut state = RenderableState::new(1, 0);
    state.poll(0, PollReply::Pending).unwrap();
    let mut answer = response(2, "title");
    answer.current_highlight = Some(Hyperlink {
        uri: "http://example.com".to_string(),
        params: vec![],
        implicit: true,
    });
    state.poll(1, PollReply::Ready(answer)).unwrap();
    assert_eq!(state.get_cursor_position(), CursorPosition { x: 3, y: 4 });
    assert_eq!(
        state.current_highlight().map(|l| l.uri.as_str()),
        Some("http://example.com")
    );
    state.clean_dirty_lines();
    assert_eq!(state.get_cursor_position(), CursorPosition { x: 3, y: 4 });
    assert!(state.current_highlight().is_some());
    assert_eq!(state.coarse().unwrap().title, "title");
}

#[test]
fn client_tab_has_a_local_and_a_remote_identifier() {
    let mut ids = IdCounter::new();
    ids.take();
    let tab = ClientTab::new(3, &mut ids, 40, 0);
    assert_eq!(tab.tab_id(), 1);
    assert_eq!(tab.domain_id(), 3);
    assert_eq!(tab.remote_tab_id, 40);
    assert_eq!(tab.renderable.remote_tab_id(), 40);
    assert_eq!(ids.take(), 2);
}

#[test]
fn titles_of_remote_tabs_are_marked() {
    let mut tab = ClientTab::new(0, &mut IdCounter::new(), 1, 0);
    assert_eq!(tab.get_title(), "[muxed] ");
    tab.renderable.poll(0, PollReply::Pending).unwrap();
    tab.renderable
        .poll(1, PollReply::Ready(response(0, "vim")))
        .unwrap();
    assert_eq!(tab.get_title(), "[muxed] vim");
}

#[test]
fn input_goes_out_under_the_remote_identifier() {
    let tab = ClientTab::new(0, &mut IdCounter::new(), 40, 0);
    let paste = tab.send_paste("hello");
    assert_eq!((paste.tab_id, paste.data.as_str()), (40, "hello"));
    let write = tab.write(b"ls\n");
    assert_eq!((write.tab_id, write.data), (40, b"ls\n".to_vec()));
    let size = PtySize {
        rows: 10,
        cols: 20,
        pixel_width: 1,
        pixel_height: 2,
    };
    assert_eq!(tab.resize(size), Resize { tab_id: 40, size });
    let mods = KeyModifiers { bits: MOD_CTRL };
    assert_eq!(
        tab.key_down(KeyCode::Char('c'), mods),
        SendKeyDown {
            tab_id: 40,
            event: KeyEvent {
                key: KeyCode::Char('c'),
                modifiers: mods
            }
        }
    );
    let event = MouseEvent {
        kind: MouseEventKind::Press,
        x: 1,
        y: 2,
        button: MouseButton::Left,
        modifiers: KeyModifiers { bits: 0 },
    };
    assert_eq!(
        tab.mouse_event(event),
        SendMouseEvent { tab_id: 40, event }
    );
}

#[test]
fn the_clipboard_follows_the_answer_to_a_mouse_event() {
    assert_eq!(
        ClientTab::clipboard_update(SendMouseEventResponse {
            clipboard: Some("copied".to_string())
        }),
        Some("copied".to_string())
    );
    assert_eq!(
        ClientTab::clipboard_update(SendMouseEventResponse { clipboard: None }),
        None
    );
}

#[test]
fn pty_size_defaults_to_24_by_80() {
    assert_eq!(
        PtySize::default(),
        PtySize {
            rows: 24,
            cols: 80,
            pixel_width: 0,
            pixel_height: 0
        }
    );
}

#[test]
fn a_line_is_copied_whole() {
    let line = Line {
        cells: vec![1, 2, 3],
    };
    assert_eq!(line.duplicate(), line);
}
