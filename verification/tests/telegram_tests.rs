use timely_greeter_bot::telegram::SimpleTelegramBot;
use timely_greeter_bot::telegram::SimpleTelegramBotUpdater;
use timely_greeter_bot::telegram::TelegramMessage;
use timely_greeter_bot::telegram::TelegramMessageChat;
use timely_greeter_bot::telegram::TelegramMessageFrom;
use timely_greeter_bot::telegram::TelegramUpdate;
use timely_greeter_bot::telegram::status_indicates_failure;

fn update_with_id(update_id: i64) -> TelegramUpdate {
    TelegramUpdate {
        update_id,
        message: TelegramMessage {
            message_id: 0,
            from: TelegramMessageFrom {
                id: 1,
                is_bot: false,
                first_name: String::from("a"),
                username: String::from("a"),
                language_code: String::from("en"),
            },
            chat: TelegramMessageChat {
                id: 1,
                first_name: String::from("a"),
                username: String::from("a"),
            },
            date: 0,
            text: None,
            sticker: None,
        },
    }
}

#[test]
fn watermark_takes_the_maximum_of_an_out_of_order_batch() {
    let mut updater = SimpleTelegramBotUpdater::new(String::from("base/"));
    let batch = vec![update_with_id(5), update_with_id(3), update_with_id(7)];
    let advanced = updater.observe_batch(&batch);
    assert!(advanced);
    assert_eq!(updater.last_update_id(), 7);
}

#[test]
fn watermark_never_goes_backwards() {
    let mut updater = SimpleTelegramBotUpdater::new(String::from("base/"));
    updater.observe(41);
    assert_eq!(updater.last_update_id(), 41);
    updater.observe(12);
    assert_eq!(updater.last_update_id(), 41);
    let advanced = updater.observe_batch(&vec![update_with_id(9), update_with_id(40)]);
    assert!(!advanced);
    assert_eq!(updater.last_update_id(), 41);
}

#[test]
fn replayed_batch_does_not_advance_again() {
    let mut updater = SimpleTelegramBotUpdater::new(String::from("base/"));
    let batch = vec![update_with_id(5), update_with_id(3), update_with_id(7)];
    assert!(updater.observe_batch(&batch));
    assert!(!updater.observe_batch(&batch));
    assert_eq!(updater.last_update_id(), 7);
}

#[test]
fn poll_url_asks_strictly_after_the_watermark() {
    let mut updater = SimpleTelegramBotUpdater::new(String::from("base/"));
    assert_eq!(updater.poll_url(), "base/getUpdates?timeout=20&offset=1");
    updater.observe(41);
    assert_eq!(updater.poll_url(), "base/getUpdates?timeout=20&offset=42");
}

#[test]
fn base_url_embeds_the_token() {
    let bot = SimpleTelegramBot::new(String::from("TOKEN"));
    assert_eq!(bot.get_base_url(), "https://api.telegram.org/botTOKEN/");
    let updater = bot.updater();
    assert_eq!(updater.last_update_id(), 0);
    assert_eq!(
        updater.poll_url(),
        "https://api.telegram.org/botTOKEN/getUpdates?timeout=20&offset=1"
    );
}

#[test]
fn failure_statuses_are_the_client_and_server_error_classes() {
    assert!(!status_indicates_failure(200));
    assert!(!status_indicates_failure(302));
    assert!(!status_indicates_failure(399));
    assert!(status_indicates_failure(400));
    assert!(status_indicates_failure(404));
    assert!(status_indicates_failure(500));
    assert!(status_indicates_failure(599));
    assert!(!status_indicates_failure(600));
}
