use tg_collector::auth::{auth_action, tdlib_settings, AuthAction, AuthState};
use tg_collector::config::Config;
use tg_collector::error::Error;
use tg_collector::tg_client::{
    channel_supergroup_id, chats_request, collect_channels, history_page_request, history_step,
    HistoryStep, MessageStamp, HISTORY_START,
};
use tg_collector::types::{Channel, ChatInfo, ChatKind, SupergroupDetails, SupergroupInfo};

fn config(interval: u64) -> Config {
    Config {
        max_download_queue_size: 1,
        log_download_state_secs_interval: interval,
        log_verbosity_level: 0,
        database_directory: "tdlib".to_string(),
        api_id: 17,
        api_hash: "hash".to_string(),
        phone_number: "+100".to_string(),
    }
}

fn channel(id: i64) -> Channel {
    Channel {
        chat_id: id,
        title: format!("t{}", id),
        description: String::new(),
        username: String::new(),
    }
}

#[test]
fn log_interval_zero_turns_logging_off() {
    assert_eq!(config(0).log_download_state_interval(), None);
    assert_eq!(config(30).log_download_state_interval(), Some(30));
}

#[test]
fn error_keeps_its_message() {
    let e = Error::new("broken".to_string());
    assert_eq!(e.message(), "broken");
}

#[test]
fn convert_copies_the_channel_fields() {
    let chat = ChatInfo {
        id: -100,
        title: "News".to_string(),
        kind: ChatKind::Supergroup { supergroup_id: 5, is_channel: true },
    };
    let sg = SupergroupInfo { username: "news".to_string() };
    let full = SupergroupDetails { description: "all the news".to_string() };
    let c = Channel::convert(&chat, &sg, &full);
    assert_eq!(c.chat_id, -100);
    assert_eq!(c.title, "News");
    assert_eq!(c.description, "all the news");
    assert_eq!(c.username, "news");
}

#[test]
fn only_channels_are_looked_up() {
    let mk = |kind| ChatInfo { id: 1, title: String::new(), kind };
    assert_eq!(
        channel_supergroup_id(&mk(ChatKind::Supergroup { supergroup_id: 9, is_channel: true })),
        Some(9)
    );
    assert_eq!(
        channel_supergroup_id(&mk(ChatKind::Supergroup { supergroup_id: 9, is_channel: false })),
        None
    );
    assert_eq!(channel_supergroup_id(&mk(ChatKind::Other)), None);
}

#[test]
fn collect_channels_keeps_channels_in_order() {
    let r = collect_channels(vec![Ok(Some(channel(1))), Ok(None), Ok(Some(channel(3)))]).unwrap();
    let ids: Vec<i64> = r.iter().map(|c| c.chat_id).collect();
    assert_eq!(ids, vec![1, 3]);
    assert!(collect_channels(vec![]).unwrap().is_empty());
}

#[test]
fn collect_channels_reports_the_first_error() {
    let r = collect_channels(vec![
        Ok(Some(channel(1))),
        Err(Error::new("first".to_string())),
        Ok(None),
        Err(Error::new("second".to_string())),
    ]);
    assert_eq!(r.unwrap_err().message(), "first");
}

#[test]
fn requests_for_chats_and_history() {
    let r = chats_request(10);
    assert_eq!(r.limit, 10);
    assert_eq!(r.offset_order, i64::MAX);
    let h = history_page_request(3, HISTORY_START);
    assert_eq!(h.chat_id, 3);
    assert_eq!(h.from_message_id, i64::MAX);
    assert_eq!(h.offset, 0);
    assert_eq!(h.limit, 10);
}

#[test]
fn history_step_keeps_recent_messages() {
    let page = vec![
        Some(MessageStamp { id: 70, date: 300 }),
        None,
        Some(MessageStamp { id: 40, date: 100 }),
        Some(MessageStamp { id: 50, date: 900 }),
    ];
    match history_step(Ok(page), 200, 100) {
        HistoryStep::Page { kept, next_from_message_id } => {
            assert_eq!(kept, vec![0, 3]);
            assert_eq!(next_from_message_id, 50);
        }
        other => panic!("unexpected step {:?}", other),
    }
}

#[test]
fn history_step_never_moves_forward() {
    let page = vec![Some(MessageStamp { id: 120, date: 5 })];
    match history_step(Ok(page), 0, 100) {
        HistoryStep::Page { kept, next_from_message_id } => {
            assert_eq!(kept, vec![0]);
            assert_eq!(next_from_message_id, 100);
        }
        other => panic!("unexpected step {:?}", other),
    }
}

#[test]
fn history_step_ends_and_fails() {
    let old = vec![Some(MessageStamp { id: 1, date: 1 }), None];
    assert!(matches!(history_step(Ok(old), 2, 9), HistoryStep::Finished));
    assert!(matches!(history_step(Ok(vec![]), 0, 9), HistoryStep::Finished));
    match history_step(Err(Error::new("down".to_string())), 0, 9) {
        HistoryStep::Failed { error, from_message_id } => {
            assert_eq!(error.message(), "down");
            assert_eq!(from_message_id, 9);
        }
        other => panic!("unexpected step {:?}", other),
    }
}

#[test]
fn auth_actions_follow_the_state() {
    assert_eq!(auth_action(AuthState::WaitTdlibParameters), AuthAction::SendTdlibParameters);
    assert_eq!(auth_action(AuthState::WaitEncryptionKey), AuthAction::SendEncryptionKey);
    assert_eq!(auth_action(AuthState::WaitPhoneNumber), AuthAction::SendPhoneNumber);
    assert_eq!(auth_action(AuthState::WaitCode), AuthAction::AskForCode);
    assert_eq!(auth_action(AuthState::Ready), AuthAction::MarkAuthorized);
    assert_eq!(auth_action(AuthState::Other), AuthAction::Ignore);
}

#[test]
fn tdlib_settings_from_config() {
    let s = tdlib_settings(&config(0), "0.1.0");
    assert_eq!(s.database_directory, "tdlib");
    assert!(!s.use_test_dc);
    assert_eq!(s.api_id, 17);
    assert_eq!(s.api_hash, "hash");
    assert_eq!(s.system_language_code, "en");
    assert_eq!(s.device_model, "Desktop");
    assert_eq!(s.system_version, "Unknown");
    assert_eq!(s.application_version, "0.1.0");
    assert!(s.enable_storage_optimizer);
}
