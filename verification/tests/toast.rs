use typing_test_tui::toast::{Toast, ToastAction, ToastLevel, ToastMessage, MAX_TOASTS};

fn messages(toast: &Toast<u32>) -> Vec<&ToastMessage> {
    toast.messages.iter().map(|(msg, _)| msg).collect()
}

#[test]
fn toast_toast_messages() {
    let mut toast: Toast<u32> = Toast::new();
    let mut timers = 0u32;
    let mut start = || {
        timers += 1;
        timers
    };

    toast.handle_action(ToastAction::Push(ToastMessage::info("First".to_string())), &mut start);
    toast.handle_action(ToastAction::Push(ToastMessage::warning("Second".to_string())), &mut start);
    toast.handle_action(ToastAction::Push(ToastMessage::success("Third".to_string())), &mut start);
    toast.handle_action(ToastAction::Push(ToastMessage::error("Fourth".to_string())), &mut start);

    assert_eq!(
        messages(&toast),
        vec![
            &ToastMessage::error("Fourth".to_string()),
            &ToastMessage::success("Third".to_string()),
            &ToastMessage::warning("Second".to_string()),
            &ToastMessage { level: ToastLevel::Info, msg: "First".to_string() },
        ]
    );

    toast.handle_action(ToastAction::Pop, || 0);

    assert_eq!(
        messages(&toast),
        vec![
            &ToastMessage::error("Fourth".to_string()),
            &ToastMessage::success("Third".to_string()),
            &ToastMessage::warning("Second".to_string()),
        ]
    );

    toast.handle_action(ToastAction::Pop, || 0);
    toast.handle_action(ToastAction::Pop, || 0);
    toast.handle_action(ToastAction::Pop, || 0);

    assert_eq!(toast.messages.len(), 0);
}

#[test]
fn toast_is_capped_and_returns_the_dropped_timer() {
    let mut toast: Toast<usize> = Toast::new();

    for i in 0..MAX_TOASTS {
        let dropped = toast.handle_action(ToastAction::Push(ToastMessage::info(format!("{}", i))), || i);
        assert_eq!(dropped, None);
    }
    assert_eq!(toast.messages.len(), MAX_TOASTS);

    let dropped = toast.handle_action(ToastAction::Push(ToastMessage::info("new".to_string())), || 99);

    assert_eq!(dropped, Some(0));
    assert_eq!(toast.messages.len(), MAX_TOASTS);
    assert_eq!(toast.messages[0].0.msg, "new");
    assert_eq!(toast.messages[0].1, 99);
    assert_eq!(toast.messages[MAX_TOASTS - 1].0.msg, "1");
}

#[test]
fn pop_on_no_toasts_does_nothing() {
    let mut toast: Toast<u8> = Toast::new();
    let dropped = toast.handle_action(ToastAction::Pop, || 1);
    assert_eq!(dropped, None);
    assert_eq!(toast.messages.len(), 0);
}

#[test]
fn toast_message_builders() {
    let msg = ToastMessage::default();
    assert_eq!(msg.level, ToastLevel::Info);
    assert_eq!(msg.msg, "");

    let msg = msg.level(ToastLevel::Error).msg("oops".to_string());
    assert_eq!(msg, ToastMessage { level: ToastLevel::Error, msg: "oops".to_string() });
    assert_eq!(ToastMessage::warning("w".to_string()).level, ToastLevel::Warning);
    assert_eq!(ToastMessage::success("s".to_string()).level, ToastLevel::Success);
    assert_eq!(ToastLevel::default(), ToastLevel::Info);
}
