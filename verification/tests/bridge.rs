use realtypro::bridge::{from_browser, to_browser, FromBrowser, PipelineConfig, PipelineInput, PipelineOutput, SocketFrame, ToBrowser};

#[test]
fn config_defaults() {
    let c = PipelineConfig::from_parts("s".into(), "o".into(), "d".into(), None);
    assert_eq!(c.system_prompt, "You are a helpful voice assistant. Keep answers concise.");
    assert_eq!(c.stt_model, "saaras:v3");
    assert_eq!(c.stt_language, "en-IN");
    assert_eq!(c.llm_model, "gpt-4o-mini");
    assert_eq!(c.sample_rate_in, 16_000);
    assert_eq!(c.sample_rate_out, 24_000);
    let c = PipelineConfig::from_parts("s".into(), "o".into(), "d".into(), Some("Be brief.".into()));
    assert_eq!(c.system_prompt, "Be brief.");
    assert_eq!(c.sarvam_api_key, "s");
}

#[test]
fn browser_text_frames_are_classified_by_type_tag() {
    assert!(matches!(from_browser(SocketFrame::Text("{\"type\":\"client_vad_start\"}".into())), FromBrowser::Forward(PipelineInput::ClientVadStart)));
    assert!(matches!(from_browser(SocketFrame::Text("{\"type\":\"client_vad_stop\",\"x\":1}".into())), FromBrowser::Forward(PipelineInput::ClientVadStop)));
    match from_browser(SocketFrame::Text("{\"type\":\"client_interruption\"}".into())) {
        FromBrowser::Forward(PipelineInput::Text(t)) => assert_eq!(t, "{\"type\":\"client_interruption\"}"),
        _ => panic!("expected text"),
    }
    match from_browser(SocketFrame::Text("client_vad_start".into())) {
        FromBrowser::Forward(PipelineInput::Text(t)) => assert_eq!(t, "client_vad_start"),
        _ => panic!("expected text"),
    }
    match from_browser(SocketFrame::Binary(vec![1, 2])) {
        FromBrowser::Forward(PipelineInput::Audio(b)) => assert_eq!(b, vec![1, 2]),
        _ => panic!("expected audio"),
    }
    assert!(matches!(from_browser(SocketFrame::Ping), FromBrowser::Ignore));
    assert!(matches!(from_browser(SocketFrame::Close), FromBrowser::Stop));
}

#[test]
fn pipeline_messages_to_browser() {
    match to_browser(Some(PipelineOutput::Interruption)) {
        ToBrowser::Send(SocketFrame::Text(t)) => assert_eq!(t, "{\"type\":\"interruption\"}"),
        _ => panic!("expected interruption frame"),
    }
    match to_browser(Some(PipelineOutput::Audio(vec![9]))) {
        ToBrowser::Send(SocketFrame::Binary(b)) => assert_eq!(b, vec![9]),
        _ => panic!("expected audio"),
    }
    assert!(matches!(to_browser(Some(PipelineOutput::ClientVadStart)), ToBrowser::Ignore));
    assert!(matches!(to_browser(None), ToBrowser::Stop));
}
