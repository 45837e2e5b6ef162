use gent_kern::dev::window::{clip, draw_window, Clip, Request, Window, WindowStack};

fn window(id: usize, x: isize, y: isize, width: usize, height: usize) -> Window {
    Window { id, x, y, width, height }
}

#[test]
fn a_window_is_cut_to_the_frame() {
    let inside = clip(&window(1, 2, 3, 4, 5), 100, 50);
    assert_eq!(inside, Clip { x_base: 2, y_base: 3, x_lim: 6, y_lim: 8 });
    let over_the_edge = clip(&window(1, 98, 48, 4, 5), 100, 50);
    assert_eq!(over_the_edge, Clip { x_base: 98, y_base: 48, x_lim: 100, y_lim: 50 });
    let from_outside = clip(&window(1, -3, -1, 4, 5), 100, 50);
    assert_eq!(from_outside, Clip { x_base: 0, y_base: 0, x_lim: 1, y_lim: 4 });
    let beside = clip(&window(1, 200, -10, 4, 5), 100, 50);
    assert_eq!(beside, Clip { x_base: 100, y_base: 0, x_lim: 100, y_lim: 0 });
    let huge = clip(&window(1, isize::MAX, isize::MIN, usize::MAX, usize::MAX), 100, 50);
    assert_eq!(huge, Clip { x_base: 100, y_base: 0, x_lim: 100, y_lim: 50 });
}

#[test]
fn a_window_is_drawn_where_it_falls_on_the_frame() {
    let mut frame = vec![0u32; 5 * 4];
    let pixels: Vec<u32> = (1..=6).collect();
    draw_window(&mut frame, 4, 4, 5, &window(1, 2, 1, 3, 2), &pixels);
    let expected = vec![
        0, 0, 0, 0, 0,
        0, 0, 1, 2, 0,
        0, 0, 4, 5, 0,
        0, 0, 0, 0, 0,
    ];
    assert_eq!(frame, expected);
    draw_window(&mut frame, 4, 4, 5, &window(2, -1, 3, 2, 2), &vec![7, 8, 9, 10]);
    assert_eq!(&frame[15..20], &[8, 0, 0, 0, 0]);
    let before = frame.clone();
    draw_window(&mut frame, 4, 4, 5, &window(3, 9, 9, 2, 2), &vec![7, 8, 9, 10]);
    assert_eq!(frame, before);
}

#[test]
fn new_windows_go_to_the_front() {
    let mut stack = WindowStack::new();
    assert!(stack.add(1, 10, 10));
    assert!(stack.add(2, 20, 20));
    assert!(stack.add(3, 30, 30));
    assert!(!stack.add(2, 1, 1));
    let ids: Vec<usize> = stack.windows.iter().map(|w| w.id).collect();
    assert_eq!(ids, vec![3, 2, 1]);
    assert_eq!(stack.find(1), Some(2));
    assert_eq!(stack.find(9), None);
    assert_eq!(stack.windows[1], window(2, 0, 0, 20, 20));
}

#[test]
fn focus_move_and_remove() {
    let mut stack = WindowStack::new();
    for id in 1..=4 {
        assert!(stack.add(id, id, id));
    }
    assert!(stack.focus(2));
    assert!(!stack.focus(7));
    let ids: Vec<usize> = stack.windows.iter().map(|w| w.id).collect();
    assert_eq!(ids, vec![2, 4, 3, 1]);
    assert!(stack.move_to(3, 5, 6));
    assert!(!stack.move_to(8, 5, 6));
    assert_eq!(stack.windows[2], window(3, 5, 6, 3, 3));
    assert_eq!(stack.remove(4), Some(window(4, 0, 0, 4, 4)));
    assert_eq!(stack.remove(4), None);
    let ids: Vec<usize> = stack.windows.iter().map(|w| w.id).collect();
    assert_eq!(ids, vec![2, 3, 1]);
    assert_eq!(Request::Move(3, 5, 6), Request::Move(3, 5, 6));
}
