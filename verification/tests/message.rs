use linux_teasing::message::{get_message, message_or_default, teasing_message_list};

const MESSAGES: [&str; 10] = [
    "Back to Linux? Finally escaping the Windows dumpster.",
    "Windows blinded you for too long, glad you woke up.",
    "Leaving Windows for Linux… pain first, growth later.",
    "From now on, you’ll feel freedom, while Windows keeps you trapped in the past.",
    "Congrats, you just escaped the Blue Screen disaster.",
    "Back on Linux? Enjoy the difference: fast, smooth, no stupid popups.",
    "Windows gives illusions, Linux gives real power.",
    "Finally leaving Windows, no more being led around by crashes.",
    "Windows is a crying child, Linux is a grown-up playing the real game.",
    "You left Windows, congrats on escaping the endless update nightmare.",
];

#[test]
fn message_is_one_of_the_lines() {
    for _ in 0..200 {
        let m = get_message();
        assert!(MESSAGES.contains(&m), "unexpected message {:?}", m);
    }
}

#[test]
fn messages_vary() {
    let first = get_message();
    let mut differs = false;
    for _ in 0..500 {
        if get_message() != first {
            differs = true;
        }
    }
    assert!(differs);
}

#[test]
fn fallback_line() {
    assert_eq!(message_or_default(None), "Linux remembers.");
    assert_eq!(message_or_default(Some("x")), "x");
}

#[test]
fn message_list_is_the_ten_lines() {
    assert_eq!(teasing_message_list(), MESSAGES.to_vec());
}
