use realtypro::voice::{
    active_function_call, handle_ravi_event, log_event, on_server_audio, on_server_text,
    on_socket_state, on_stream_end, on_vad_result, receive_text, transcript_text, uid,
    visible_events, Activity,
    AudioRoute, ConnectionStatus, EventData, Pipeline, Playback, RaviEnvelope, SocketState,
    VadSignal, VoiceActivity,
};

fn data(text: Option<&str>) -> EventData {
    EventData {
        text: text.map(|t| t.to_string()),
        is_final: None,
        msg_type: None,
        id: None,
        function_name: None,
        error: None,
        raw: "{}".to_string(),
    }
}

fn env(kind: &str, id: Option<&str>, d: Option<EventData>) -> Option<RaviEnvelope> {
    Some(RaviEnvelope {
        label: "ravi".to_string(),
        msg_type: kind.to_string(),
        id: id.map(|s| s.to_string()),
        data: d,
    })
}

fn feed(p: &mut Pipeline, e: Option<RaviEnvelope>) -> Playback {
    handle_ravi_event("{\"label\":\"ravi\"}", &e, p, 1_000)
}

#[test]
fn uid_is_zero_padded_hex_and_counts_up() {
    let mut c = 0u64;
    assert_eq!(uid(&mut c), "00000000");
    assert_eq!(uid(&mut c), "00000001");
    let mut c = 255u64;
    assert_eq!(uid(&mut c), "000000ff");
    assert_eq!(c, 256);
    let mut c = 0x1_0000_0000u64;
    assert_eq!(uid(&mut c), "100000000");
    let mut c = u64::MAX;
    assert_eq!(uid(&mut c), "ffffffffffffffff");
    assert_eq!(c, 0);
}

#[test]
fn log_event_stamps_and_numbers_entries() {
    let mut p = Pipeline::new(0);
    log_event(&mut p, "bot-ready", None, 42);
    log_event(&mut p, "error", Some("boom"), 43);
    assert_eq!(p.events.len(), 2);
    assert_eq!(p.events[0].id, "00000000");
    assert_eq!(p.events[0].ts, 42);
    assert_eq!(p.events[1].event_type, "error");
    assert_eq!(p.events[1].detail.as_deref(), Some("boom"));
    assert_eq!(p.next_uid, 2);
}

#[test]
fn user_transcription_partial_then_final() {
    let mut p = Pipeline::new(0);
    feed(&mut p, env("user-transcription", None, Some(data(Some("hel")))));
    assert_eq!(p.transcript, "hel");
    assert!(p.messages.is_empty());
    let mut d = data(Some("hello"));
    d.is_final = Some(true);
    feed(&mut p, env("user-transcription", Some("m1"), Some(d)));
    assert_eq!(p.transcript, "");
    assert_eq!(p.messages.len(), 1);
    assert_eq!(p.messages[0].id, "m1");
    assert_eq!(p.messages[0].role, "user");
    assert_eq!(p.messages[0].text, "hello");
    assert!(p.messages[0].final_msg);
    assert_eq!(p.events.len(), 2);
    assert_eq!(p.events[1].detail.as_deref(), Some("hello"));
}

#[test]
fn assistant_reply_streams_then_finalises() {
    let mut p = Pipeline::new(0);
    feed(&mut p, env("bot-llm-started", None, None));
    assert_eq!(p.activity, Activity::Processing);
    assert_eq!(p.messages.len(), 1);
    assert!(!p.messages[0].final_msg);
    feed(&mut p, env("bot-llm-started", None, None));
    assert_eq!(p.messages.len(), 1);
    feed(&mut p, env("bot-llm-text", None, Some(data(Some("Hi ")))));
    feed(&mut p, env("bot-llm-text", None, Some(data(Some("there")))));
    assert_eq!(p.bot_text, "Hi there");
    assert_eq!(p.messages[0].text, "Hi there");
    assert_eq!(transcript_text(&p), "Hi there");
    feed(&mut p, env("bot-started-speaking", None, None));
    assert!(p.is_bot_speaking);
    assert_eq!(p.activity, Activity::Speaking);
    feed(&mut p, env("bot-transcription", None, Some(data(Some("Hi there!")))));
    assert_eq!(p.messages.len(), 1);
    assert_eq!(p.messages[0].text, "Hi there!");
    assert!(p.messages[0].final_msg);
    assert_eq!(p.bot_text, "");
    assert_eq!(transcript_text(&p), "Hi there!");
    feed(&mut p, env("bot-stopped-speaking", None, None));
    assert!(!p.is_bot_speaking);
}

#[test]
fn bot_transcription_without_open_reply_adds_message() {
    let mut p = Pipeline::new(0);
    feed(&mut p, env("bot-transcription", Some("b1"), Some(data(Some("Done.")))));
    assert_eq!(p.messages.len(), 1);
    assert_eq!(p.messages[0].id, "b1");
    assert_eq!(p.messages[0].role, "assistant");
    assert!(p.messages[0].final_msg);
}

#[test]
fn law_final_messages_stay_on_a_session() {
    let mut p = Pipeline::new(0);
    let mut d = data(Some("first"));
    d.is_final = Some(true);
    feed(&mut p, env("user-transcription", None, Some(d)));
    feed(&mut p, env("bot-transcription", None, Some(data(Some("answer")))));
    feed(&mut p, env("bot-llm-text", None, Some(data(Some("more")))));
    assert_eq!(p.messages[0].text, "first");
    assert_eq!(p.messages[1].text, "answer");
    assert_eq!(p.messages[2].text, "more");
    assert!(!p.messages[2].final_msg);
}

#[test]
fn server_messages_track_function_calls() {
    let mut p = Pipeline::new(0);
    let mut d = data(None);
    d.msg_type = Some("function-call-in-progress".into());
    d.id = Some("f1".into());
    d.function_name = Some("place_order".into());
    d.raw = "{\"id\":\"f1\"}".into();
    feed(&mut p, env("server-message", None, Some(d)));
    assert_eq!(p.function_calls.len(), 1);
    assert_eq!(p.function_calls[0].state, "in-progress");
    assert_eq!(p.function_calls[0].payload.as_deref(), Some("{\"id\":\"f1\"}"));
    assert_eq!(active_function_call(&p), Some(0));
    let mut d = data(None);
    d.msg_type = Some("function-call-result".into());
    d.id = Some("f1".into());
    feed(&mut p, env("server-message", None, Some(d)));
    assert_eq!(p.function_calls.len(), 1);
    assert_eq!(p.function_calls[0].state, "completed");
    assert_eq!(active_function_call(&p), None);
    let mut d = data(None);
    d.msg_type = Some("function-call-result".into());
    d.id = Some("f2".into());
    d.function_name = Some("view_cart".into());
    feed(&mut p, env("server-message", None, Some(d)));
    assert_eq!(p.function_calls.len(), 2);
    assert_eq!(p.function_calls[1].name, "view_cart");
    assert_eq!(p.function_calls[1].state, "completed");
    assert_eq!(p.server_messages.len(), 3);
    let d = data(None);
    feed(&mut p, env("server-message", None, Some(d)));
    assert_eq!(p.server_messages[3].msg_type, "unknown");
    assert_eq!(p.events.len(), 3);
}

#[test]
fn errors_and_unknown_types() {
    let mut p = Pipeline::new(0);
    let mut d = data(None);
    d.error = Some("quota".into());
    feed(&mut p, env("error-response", None, Some(d)));
    assert_eq!(p.last_error.as_deref(), Some("quota"));
    assert_eq!(p.events[0].event_type, "error-response");
    feed(&mut p, env("error", None, Some(data(None))));
    assert_eq!(p.last_error.as_deref(), Some("unknown"));
    feed(&mut p, env("metrics", None, None));
    assert_eq!(p.events[2].event_type, "unhandled: metrics");
    feed(&mut p, env("error", None, None));
    assert_eq!(p.events.len(), 3);
    let other = Some(RaviEnvelope { label: "other".into(), msg_type: "bot-ready".into(), id: None, data: None });
    feed(&mut p, other);
    assert_eq!(p.events.len(), 3);
    feed(&mut p, env("user-started-speaking", None, None));
    assert_eq!(p.events[3].detail.as_deref(), Some("server"));
}

#[test]
fn bare_interruption_counts_only_while_bot_speaks() {
    let mut p = Pipeline::new(0);
    let r = handle_ravi_event("{\"type\":\"interruption\"}", &None, &mut p, 5);
    assert_eq!(r, Playback::Silence);
    assert_eq!(p.interrupt_count, 0);
    assert!(p.user_speaking);
    assert_eq!(p.activity, Activity::Listening);
    assert!(p.events.is_empty());
    p.is_bot_speaking = true;
    p.bot_text = "half a sen".into();
    let r = handle_ravi_event("{\"type\":\"interruption\"}", &None, &mut p, 6);
    assert_eq!(r, Playback::Silence);
    assert_eq!(p.interrupt_count, 1);
    assert!(!p.is_bot_speaking);
    assert_eq!(p.bot_text, "");
    assert_eq!(p.events[0].event_type, "interrupt");
    assert_eq!(p.events[0].detail.as_deref(), Some("server"));
    p.is_bot_speaking = true;
    let r = handle_ravi_event("{\"type\":\"interruption\",\"label\":\"ravi\"}", &None, &mut p, 7);
    assert_eq!(r, Playback::Keep);
    assert_eq!(p.interrupt_count, 1);
    assert!(p.is_bot_speaking);
    let r = handle_ravi_event("not json", &None, &mut p, 8);
    assert_eq!(r, Playback::Keep);
}

#[test]
fn law_monitor_keeps_latest_hundred() {
    let mut p = Pipeline::new(0);
    for i in 0..150u32 {
        on_server_text(&mut p, format!("frame {}", i), &None, 1);
    }
    assert_eq!(p.pipeline_texts.len(), 100);
    assert_eq!(p.pipeline_texts[0], "frame 50");
    assert_eq!(p.pipeline_texts[99], "frame 149");
}

#[test]
fn audio_frames_count_turns_unless_user_talks() {
    let mut p = Pipeline::new(0);
    assert_eq!(on_server_audio(&mut p), AudioRoute::Play);
    assert_eq!(on_server_audio(&mut p), AudioRoute::Play);
    assert_eq!(p.turn_count, 1);
    assert!(p.is_bot_speaking);
    p.user_speaking = true;
    assert_eq!(on_server_audio(&mut p), AudioRoute::Drop);
    assert!(!p.is_bot_speaking);
    on_stream_end(&mut p);
    assert!(!p.user_speaking);
    assert!(!p.tasks_started);
    assert_eq!(p.activity, Activity::Idle);
}

#[test]
fn vad_windows_drive_user_speaking() {
    let mut p = Pipeline::new(0);
    p.is_bot_speaking = true;
    let r = on_vad_result(&mut p, VoiceActivity::Speaking, true, 9);
    assert!(r.clear_speaker);
    assert_eq!(r.signal, Some(VadSignal::Start));
    assert!(p.user_speaking);
    assert!(!p.is_bot_speaking);
    let r = on_vad_result(&mut p, VoiceActivity::Speaking, false, 10);
    assert_eq!(r.signal, None);
    assert!(!r.clear_speaker);
    let r = on_vad_result(&mut p, VoiceActivity::Transition, false, 11);
    assert_eq!(r.signal, None);
    let r = on_vad_result(&mut p, VoiceActivity::Quiet, false, 12);
    assert_eq!(r.signal, Some(VadSignal::Stop));
    assert!(!p.user_speaking);
    assert_eq!(p.events.len(), 2);
    assert_eq!(p.events[0].detail.as_deref(), Some("client-vad"));
}

#[test]
fn socket_lifecycle() {
    let mut p = Pipeline::new(0);
    assert!(p.connect(false, true));
    assert_eq!(p.connect_trigger, 1);
    assert!(!p.connect(true, true));
    assert!(!p.connect(false, false));
    on_socket_state(&mut p, SocketState::Connecting);
    assert_eq!(p.status, ConnectionStatus::Connecting);
    assert_eq!(p.status.as_str(), "connecting");
    let r = on_socket_state(&mut p, SocketState::Open);
    assert_eq!(r.ready_id.as_deref(), Some("00000000"));
    assert!(r.start_audio);
    assert!(p.tasks_started);
    let r = on_socket_state(&mut p, SocketState::Open);
    assert!(!r.start_audio);
    let r = on_socket_state(&mut p, SocketState::FailedToConnect);
    assert!(r.stop_audio);
    assert_eq!(p.status, ConnectionStatus::Error);
    let r = on_socket_state(&mut p, SocketState::FailedToConnect);
    assert!(!r.stop_audio);
    assert_eq!(p.status, ConnectionStatus::Idle);
    let r = on_socket_state(&mut p, SocketState::Closed);
    assert!(r.stop_audio && r.reset_energy);
    assert_eq!(p.connect_trigger, 0);
}

#[test]
fn send_text_trims_and_skips_blank() {
    let mut p = Pipeline::new(0);
    assert!(p.send_text("   ").is_none());
    assert_eq!(p.next_uid, 0);
    let req = p.send_text("  two bedrooms please ").unwrap();
    assert_eq!(req.content, "two bedrooms please");
    assert_eq!(req.id, "00000000");
    assert_eq!(p.next_uid, 1);
}

#[test]
fn event_log_filter_newest_first() {
    let mut p = Pipeline::new(0);
    log_event(&mut p, "bot-ready", None, 1);
    log_event(&mut p, "interrupt", None, 2);
    log_event(&mut p, "user-started-speaking", None, 3);
    log_event(&mut p, "bot-llm-text", None, 4);
    assert_eq!(visible_events(&p, false), vec![3, 2, 1, 0]);
    assert_eq!(visible_events(&p, true), vec![2, 1]);
    for t in 0..60u64 {
        log_event(&mut p, "bot-llm-text", None, t);
    }
    let all = visible_events(&p, false);
    assert_eq!(all.len(), 50);
    assert_eq!(all[0], 63);
    assert_eq!(visible_events(&p, true), vec![2, 1]);
}

#[test]
fn session_continues_the_shared_identifier_counter() {
    let mut p = Pipeline::new(7);
    let req = p.send_text("  hello ").unwrap();
    assert_eq!(req.id, "00000007");
    assert_eq!(req.content, "hello");
    log_event(&mut p, "bot-ready", None, 1);
    assert_eq!(p.events[0].id, "00000008");
    assert_eq!(p.next_uid, 9);
}

#[test]
fn frames_other_than_interruptions_pass_at_the_interruption_cap() {
    let mut p = Pipeline::new(0);
    p.is_bot_speaking = true;
    p.interrupt_count = u32::MAX;
    let r = on_server_text(&mut p, "not json".to_string(), &None, 3);
    assert_eq!(r, Playback::Keep);
    assert_eq!(p.pipeline_texts, vec!["not json".to_string()]);
    assert!(p.events.is_empty());
    let e = Some(RaviEnvelope {
        label: "other".to_string(),
        msg_type: "bot-ready".to_string(),
        id: None,
        data: None,
    });
    let r = handle_ravi_event("{\"label\":\"other\",\"type\":\"bot-ready\"}", &e, &mut p, 4);
    assert_eq!(r, Playback::Keep);
    assert!(p.events.is_empty());
    assert_eq!(p.interrupt_count, u32::MAX);
    assert!(p.is_bot_speaking);
    let r = feed(&mut p, env("bot-stopped-speaking", None, None));
    assert_eq!(r, Playback::Keep);
    assert!(!p.is_bot_speaking);
    assert_eq!(p.interrupt_count, u32::MAX);
}

#[test]
fn receive_text_refuses_only_an_overflowing_interruption() {
    let mut p = Pipeline::new(0);
    p.is_bot_speaking = true;
    p.interrupt_count = u32::MAX;
    let r = receive_text(&mut p, "{\"type\":\"interruption\"}".to_string(), &None, 1);
    assert_eq!(r, None);
    assert!(p.pipeline_texts.is_empty());
    assert!(p.is_bot_speaking);
    let r = receive_text(&mut p, "{\"type\":\"bot-ready\"}".to_string(), &None, 2);
    assert_eq!(r, Some(Playback::Keep));
    assert_eq!(p.pipeline_texts.len(), 1);
    p.interrupt_count = 4;
    let r = receive_text(&mut p, "{\"type\":\"interruption\"}".to_string(), &None, 3);
    assert_eq!(r, Some(Playback::Silence));
    assert_eq!(p.interrupt_count, 5);
    assert!(!p.is_bot_speaking);
}

#[test]
fn identifiers_below_two_to_the_32_have_eight_hex_digits() {
    for start in [0u64, 9, 0xabc, 0xffff_ffff] {
        let mut c = start;
        let id = uid(&mut c);
        assert_eq!(id.len(), 8);
        assert!(id.chars().all(|ch| ch.is_ascii_digit() || ('a'..='f').contains(&ch)));
    }
}

#[test]
fn a_frame_adds_at_most_one_message() {
    let mut p = Pipeline::new(0);
    feed(&mut p, env("bot-llm-started", None, None));
    assert_eq!(p.messages.len(), 1);
    feed(&mut p, env("bot-llm-text", None, Some(data(Some("Hi")))));
    assert_eq!(p.messages.len(), 1);
    feed(&mut p, env("bot-transcription", Some("m1"), Some(data(Some("Hi there")))));
    assert_eq!(p.messages.len(), 1);
    feed(&mut p, env("bot-transcription", Some("m2"), Some(data(Some("More")))));
    assert_eq!(p.messages.len(), 2);
}

#[test]
fn connect_requests_once_while_socket_busy() {
    let mut p = Pipeline::new(0);
    assert!(p.connect(false, true));
    assert_eq!(p.connect_trigger, 1);
    assert!(!p.connect(true, true));
    assert!(!p.connect(false, false));
    assert_eq!(p.connect_trigger, 1);
}
