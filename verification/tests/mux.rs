use termmux::mux::domain::{alloc_domain_id, LocalDomain, DEFAULT_SCROLLBACK_LINES};
use termmux::mux::reader::{PtyReader, TabWork, BUFSIZE};
use termmux::mux::tab::{alloc_tab_id, IdCounter};
use termmux::mux::window::Window;
use termmux::mux::{Mux, MuxError};

fn sorted(mut ids: Vec<usize>) -> Vec<usize> {
    ids.sort();
    ids
}

fn new_mux() -> Mux<&'static str, &'static str> {
    Mux::new(0, "local")
}

/// Every tab that a window shows is a tab of the registry.
fn contained(mux: &Mux<&'static str, &'static str>) -> bool {
    mux.iter_windows().into_iter().all(|w| {
        let window = mux.get_window(w).unwrap();
        (0..window.len()).all(|i| mux.get_tab(window.get_by_idx(i).unwrap()).is_some())
    })
}

fn no_empty_window(mux: &Mux<&'static str, &'static str>) -> bool {
    mux.iter_windows()
        .into_iter()
        .all(|w| !mux.get_window(w).unwrap().is_empty())
}

#[test]
fn identifiers_count_up_from_zero() {
    let mut domains = IdCounter::new();
    let mut tabs = IdCounter::new();
    assert_eq!(alloc_domain_id(&mut domains), 0);
    assert_eq!(alloc_domain_id(&mut domains), 1);
    assert_eq!(alloc_tab_id(&mut tabs), 0);
    assert_eq!(alloc_domain_id(&mut domains), 2);
    assert_eq!(alloc_tab_id(&mut tabs), 1);
    assert!(domains.has_more());
    let local = LocalDomain::new(&mut domains);
    assert_eq!(local.domain_id(), 3);
    assert_eq!(domains.take(), 4);
}

#[test]
fn scrollback_defaults_to_3500_lines() {
    assert_eq!(DEFAULT_SCROLLBACK_LINES, 3500);
    assert_eq!(LocalDomain::scrollback_lines(None), 3500);
    assert_eq!(LocalDomain::scrollback_lines(Some(10)), 10);
    assert_eq!(LocalDomain::scrollback_lines(Some(0)), 0);
}

#[test]
fn window_push_makes_the_new_tab_active() {
    let mut window = Window::new(7);
    assert_eq!(window.window_id(), 7);
    assert!(window.is_empty());
    assert_eq!(window.get_active(), None);
    window.push(10);
    assert_eq!(window.get_active(), Some(10));
    window.push(11);
    window.push(12);
    assert_eq!(window.len(), 3);
    assert_eq!(window.get_active_idx(), 2);
    assert_eq!(window.get_active(), Some(12));
    assert_eq!(window.get_by_idx(0), Some(10));
    assert_eq!(window.get_by_idx(3), None);
    assert_eq!(window.idx_by_id(11), Some(1));
    assert_eq!(window.idx_by_id(99), None);
    window.set_active(0);
    assert_eq!(window.get_active(), Some(10));
}

#[test]
fn removing_the_active_tab_clamps_the_active_index() {
    let mut window = Window::new(0);
    window.push(10);
    window.push(11);
    window.push(12);
    // active is the last tab; removing it moves active to the new last
    assert!(window.remove_by_id(12));
    assert_eq!(window.get_active_idx(), 1);
    assert_eq!(window.get_active(), Some(11));
    // removing a tab before the active index leaves the index alone where
    // the list still reaches it
    window.push(13);
    window.set_active(1);
    assert!(window.remove_by_id(10));
    assert_eq!(window.get_active_idx(), 1);
    assert_eq!(window.get_active(), Some(13));
    // a tab that is not there
    assert!(!window.remove_by_id(99));
    assert_eq!(window.len(), 2);
    assert!(window.remove_by_id(13));
    assert_eq!(window.get_active_idx(), 0);
    assert!(window.remove_by_id(11));
    assert!(window.is_empty());
    assert_eq!(window.get_active(), None);
}

#[test]
fn a_tab_shown_twice_leaves_altogether() {
    let mut window = Window::new(0);
    window.push(1);
    window.push(2);
    window.push(1);
    assert!(window.remove_by_id(1));
    assert_eq!(window.len(), 1);
    assert_eq!(window.get_active(), Some(2));
    assert_eq!(window.idx_by_id(1), None);
}

#[test]
fn a_new_registry_has_its_default_domain_and_nothing_else() {
    let mux = new_mux();
    assert!(mux.is_empty());
    assert!(mux.iter_windows().is_empty());
    assert!(mux.iter_tabs().is_empty());
    assert_eq!(mux.default_domain_id(), 0);
    assert_eq!(mux.default_domain(), &"local");
    assert_eq!(mux.get_domain(0), Some(&"local"));
    assert_eq!(mux.get_domain(1), None);
}

#[test]
fn domains_are_added() {
    let mut mux = new_mux();
    mux.add_domain(5, "remote");
    assert_eq!(mux.get_domain(5), Some(&"remote"));
    assert_eq!(mux.default_domain(), &"local");
}

#[test]
fn add_tab_to_window_fails_without_the_window() {
    let mut mux = new_mux();
    mux.add_tab(1, "one");
    assert_eq!(
        mux.add_tab_to_window(1, 42),
        Err(MuxError::NoSuchWindow { window_id: 42 })
    );
    assert_eq!(mux.get_tab(1), Some(&"one"));
    assert!(mux.iter_windows().is_empty());
}

#[test]
fn a_tab_that_is_not_there_is_an_error() {
    let mut mux = new_mux();
    mux.add_tab(1, "one");
    assert_eq!(mux.tab(1), Ok(&"one"));
    assert_eq!(mux.tab(2), Err(MuxError::NoSuchTab { tab_id: 2 }));
}

#[test]
fn windows_get_fresh_identifiers() {
    let mut mux = new_mux();
    assert!(mux.has_window_ids());
    let a = mux.new_empty_window();
    let b = mux.new_empty_window();
    assert_ne!(a, b);
    assert_eq!(sorted(mux.iter_windows()), vec![a, b]);
    assert!(mux.get_window(a).unwrap().is_empty());
    assert_eq!(mux.get_window(a).unwrap().window_id(), a);
    assert!(mux.get_window(b + 1).is_none());
}

#[test]
fn a_new_window_changes_nothing_else() {
    let mut mux = new_mux();
    let first = mux.new_empty_window();
    mux.add_tab_in_window(1, "a", first).unwrap();
    mux.add_tab(2, "b");
    let mut made = vec![first];
    for round in 0..5 {
        let before = sorted(mux.iter_windows());
        let tabs_before = sorted(mux.iter_tabs());
        let window = mux.new_empty_window();
        // fresh: no window had it, and none that was ever made
        assert!(!before.contains(&window));
        assert!(!made.contains(&window));
        made.push(window);
        assert!(mux.get_window(window).unwrap().is_empty());
        assert_eq!(mux.get_window(window).unwrap().window_id(), window);
        let mut expected = before.clone();
        expected.push(window);
        assert_eq!(sorted(mux.iter_windows()), sorted(expected));
        assert_eq!(sorted(mux.iter_tabs()), tabs_before);
        assert_eq!(mux.get_window(first).unwrap().len(), 1);
        assert_eq!(mux.get_window(first).unwrap().get_active(), Some(1));
        // windows come and go in between, and their identifiers stay used
        mux.add_tab_in_window(10 + round, "c", window).unwrap();
        if round % 2 == 0 {
            mux.remove_tab(10 + round);
            assert!(mux.get_window(window).is_none());
        }
    }
}

#[test]
fn spawned_tab_is_listed_with_its_window() {
    let mut mux = new_mux();
    let mut tab_ids = IdCounter::new();
    let window = mux.new_empty_window();
    let tab = alloc_tab_id(&mut tab_ids);
    assert_eq!(mux.add_tab_in_window(tab, "shell", window), Ok(()));
    let listing: Vec<(usize, usize, &str)> = mux
        .iter_windows()
        .into_iter()
        .flat_map(|w| {
            let win = mux.get_window(w).unwrap();
            (0..win.len())
                .map(|i| win.get_by_idx(i).unwrap())
                .map(|t| (w, t, *mux.get_tab(t).unwrap()))
                .collect::<Vec<_>>()
        })
        .collect();
    assert_eq!(listing, vec![(window, tab, "shell")]);
    assert_eq!(mux.get_active_tab_for_window(window), Some(&"shell"));
    assert!(contained(&mux));
    assert!(no_empty_window(&mux));
}

#[test]
fn a_tab_for_a_window_that_is_not_there_is_still_entered() {
    let mut mux = new_mux();
    assert_eq!(
        mux.add_tab_in_window(3, "lost", 9),
        Err(MuxError::NoSuchWindow { window_id: 9 })
    );
    assert_eq!(mux.get_tab(3), Some(&"lost"));
}

#[test]
fn removing_the_only_tab_removes_its_window() {
    let mut mux = new_mux();
    let lonely = mux.new_empty_window();
    let shared = mux.new_empty_window();
    mux.add_tab_in_window(1, "t", lonely).unwrap();
    mux.add_tab_in_window(2, "u", shared).unwrap();
    mux.add_tab_to_window(1, shared).unwrap();
    mux.remove_tab(1);
    assert_eq!(mux.get_tab(1), None);
    assert_eq!(mux.get_tab(2), Some(&"u"));
    assert!(mux.get_window(lonely).is_none());
    assert_eq!(mux.iter_windows(), vec![shared]);
    let window = mux.get_window(shared).unwrap();
    assert_eq!(window.len(), 1);
    assert_eq!(window.get_active(), Some(2));
    assert_eq!(mux.iter_tabs(), vec![2]);
    assert!(!mux.is_empty());
    mux.remove_tab(2);
    assert!(mux.is_empty());
    assert!(mux.iter_windows().is_empty());
}

#[test]
fn an_empty_window_outlives_the_removal_of_a_tab_it_never_had() {
    let mut mux = new_mux();
    let empty = mux.new_empty_window();
    mux.add_tab(1, "t");
    mux.remove_tab(1);
    assert_eq!(mux.iter_windows(), vec![empty]);
}

#[test]
fn the_registry_stays_in_order() {
    let mut mux = new_mux();
    let mut windows = Vec::new();
    for _ in 0..3 {
        windows.push(mux.new_empty_window());
    }
    // fill every window first, so that none is empty
    for (i, w) in windows.iter().enumerate() {
        mux.add_tab_in_window(100 + i, "first", *w).unwrap();
    }
    assert!(contained(&mux) && no_empty_window(&mux));
    let mut seed = 12345u32;
    for step in 0..400usize {
        seed = seed.wrapping_mul(1103515245).wrapping_add(12345);
        let tab = (seed >> 16) as usize % 8;
        let window = windows[(seed >> 8) as usize % windows.len()];
        match step % 3 {
            0 => mux.add_tab(tab, "tab"),
            1 => {
                if mux.get_tab(tab).is_some() {
                    let _ = mux.add_tab_to_window(tab, window);
                }
            }
            _ => mux.remove_tab(tab),
        }
        assert!(contained(&mux), "after step {}", step);
        assert!(no_empty_window(&mux), "after step {}", step);
    }
}

#[test]
fn a_window_may_show_a_tab_that_was_never_entered() {
    let mut mux = new_mux();
    let window = mux.new_empty_window();
    assert_eq!(mux.add_tab_to_window(77, window), Ok(()));
    assert!(!contained(&mux));
    assert_eq!(mux.get_active_tab_for_window(window), None);
}

#[test]
fn the_active_tab_of_a_window_can_be_chosen() {
    let mut mux = new_mux();
    let window = mux.new_empty_window();
    mux.add_tab_in_window(1, "a", window).unwrap();
    mux.add_tab_in_window(2, "b", window).unwrap();
    assert_eq!(mux.get_active_tab_for_window(window), Some(&"b"));
    assert_eq!(mux.set_active_tab(window, 0), Ok(true));
    assert_eq!(mux.get_active_tab_for_window(window), Some(&"a"));
    assert_eq!(mux.set_active_tab(window, 2), Ok(false));
    assert_eq!(mux.get_active_tab_for_window(window), Some(&"a"));
    assert_eq!(
        mux.set_active_tab(window + 1, 0),
        Err(MuxError::NoSuchWindow {
            window_id: window + 1
        })
    );
    assert_eq!(mux.get_active_tab_for_window(window + 1), None);
}

#[test]
fn the_reader_hands_over_chunks_and_then_the_removal() {
    assert_eq!(BUFSIZE, 32768);
    let mut reader = PtyReader::new(4);
    assert_eq!(
        reader.step(Some(b"abc")),
        Some(TabWork::Advance {
            tab_id: 4,
            data: b"abc".to_vec()
        })
    );
    assert_eq!(
        reader.step(Some(b"d")),
        Some(TabWork::Advance {
            tab_id: 4,
            data: b"d".to_vec()
        })
    );
    assert!(!reader.is_finished());
    // end of the output
    assert_eq!(reader.step(Some(b"")), Some(TabWork::Remove { tab_id: 4 }));
    assert!(reader.is_finished());
    // nothing after that, whatever is read
    assert_eq!(reader.step(Some(b"late")), None);
    assert_eq!(reader.step(Some(b"")), None);
    assert_eq!(reader.step(None), None);
    assert!(reader.is_finished());
}

#[test]
fn a_failed_read_ends_the_reader_too() {
    let mut reader = PtyReader::new(9);
    assert_eq!(reader.step(None), Some(TabWork::Remove { tab_id: 9 }));
    assert_eq!(reader.step(None), None);
}

#[test]
fn local_eof_removes_the_tab_and_its_window() {
    let mut mux = new_mux();
    let window = mux.new_empty_window();
    mux.add_tab_in_window(1, "child", window).unwrap();
    let mut reader = PtyReader::new(1);
    let mut queue = Vec::new();
    for read in [Some(&b"bye"[..]), Some(&b""[..])].iter() {
        if let Some(work) = reader.step(*read) {
            queue.push(work);
        }
    }
    let mut fed = Vec::new();
    let mut removals = 0;
    for work in queue {
        match work {
            TabWork::Advance { tab_id, data } => {
                if mux.get_tab(tab_id).is_some() {
                    fed.extend_from_slice(&data);
                }
            }
            TabWork::Remove { tab_id } => {
                removals += 1;
                mux.remove_tab(tab_id);
            }
        }
    }
    assert_eq!(fed, b"bye");
    assert_eq!(removals, 1);
    assert_eq!(mux.get_tab(1), None);
    assert!(mux.get_window(window).is_none());
}
