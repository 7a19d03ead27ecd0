//! The server side of the voice socket: the settings a pipeline starts with,
//! and how frames are relayed between the browser and the voice pipeline.
use vstd::prelude::*;
use crate::json::{json_str_member, json_str_member_of};
use crate::text::{owned, str_eq};

verus! {

/// Everything a voice pipeline needs for one connection.
pub struct PipelineConfig {
    pub sarvam_api_key: String,
    pub openai_api_key: String,
    pub deepgram_api_key: String,
    pub system_prompt: String,
    pub stt_model: String,
    pub stt_language: String,
    pub llm_model: String,
    pub sample_rate_in: u32,
    pub sample_rate_out: u32,
}

/// The system prompt used when none is configured.
pub open spec fn default_prompt() -> Seq<char> {
    "You are a helpful voice assistant. Keep answers concise."@
}

impl PipelineConfig {
    /// The configuration for the given keys and optional system prompt, with
    /// the fixed models and rates: speech-to-text `saaras:v3` in `en-IN`, the
    /// `gpt-4o-mini` language model, 16 kHz in and 24 kHz out.
    pub fn from_parts(
        sarvam_api_key: String,
        openai_api_key: String,
        deepgram_api_key: String,
        system_prompt: Option<String>,
    ) -> (r: PipelineConfig)
        ensures
            r.sarvam_api_key@ == sarvam_api_key@,
            r.openai_api_key@ == openai_api_key@,
            r.deepgram_api_key@ == deepgram_api_key@,
            r.system_prompt@ == match system_prompt {
                Some(p) => p@,
                None => default_prompt(),
            },
            r.stt_model@ == "saaras:v3"@,
            r.stt_language@ == "en-IN"@,
            r.llm_model@ == "gpt-4o-mini"@,
            r.sample_rate_in == 16_000,
            r.sample_rate_out == 24_000,
    {
        let prompt = match system_prompt {
            Some(p) => p,
            None => owned("You are a helpful voice assistant. Keep answers concise."),
        };
        PipelineConfig {
            sarvam_api_key,
            openai_api_key,
            deepgram_api_key,
            system_prompt: prompt,
            stt_model: owned("saaras:v3"),
            stt_language: owned("en-IN"),
            llm_model: owned("gpt-4o-mini"),
            sample_rate_in: 16_000,
            sample_rate_out: 24_000,
        }
    }
}

/// A frame on the browser socket.
pub enum SocketFrame {
    Binary(Vec<u8>),
    Text(String),
    Ping,
    Pong,
    Close,
}

/// A message for the voice pipeline's transport.
pub enum PipelineInput {
    Audio(Vec<u8>),
    Text(String),
    ClientVadStart,
    ClientVadStop,
}

/// A message from the voice pipeline's transport.
pub enum PipelineOutput {
    Audio(Vec<u8>),
    Text(String),
    Interruption,
    ClientVadStart,
    ClientVadStop,
}

/// What the bridge does with one frame from the browser.
pub enum FromBrowser {
    Forward(PipelineInput),
    Ignore,
    Stop,
}

/// What the bridge does with one message from the pipeline (`None`: the
/// pipeline has stopped).
pub enum ToBrowser {
    Send(SocketFrame),
    Ignore,
    Stop,
}

/// What a text frame from the browser becomes, by its `"type"` tag: the
/// browser's voice-detector signals, else the text itself.
pub open spec fn text_input(type_tag: Option<Seq<char>>, text: String) -> PipelineInput {
    if type_tag == Some("client_vad_start"@) {
        PipelineInput::ClientVadStart
    } else if type_tag == Some("client_vad_stop"@) {
        PipelineInput::ClientVadStop
    } else {
        PipelineInput::Text(text)
    }
}

/// What a text frame from the browser becomes, given its `"type"` tag.
pub fn classify_text(type_tag: &Option<String>, text: String) -> (r: PipelineInput)
    ensures
        r == text_input(
            match type_tag {
                Some(t) => Some(t@),
                None => None,
            },
            text,
        ),
{
    match type_tag {
        Some(t) => {
            if str_eq(t.as_str(), "client_vad_start") {
                PipelineInput::ClientVadStart
            } else if str_eq(t.as_str(), "client_vad_stop") {
                PipelineInput::ClientVadStop
            } else {
                PipelineInput::Text(text)
            }
        },
        None => PipelineInput::Text(text),
    }
}

/// Relays one frame from the browser: audio and text go on to the
/// pipeline, keep-alives are ignored, and a close ends the bridge.
pub fn from_browser(frame: SocketFrame) -> (r: FromBrowser)
    ensures
        match frame {
            SocketFrame::Binary(b) => r == FromBrowser::Forward(PipelineInput::Audio(b)),
            SocketFrame::Text(t) => r == FromBrowser::Forward(
                text_input(json_str_member_of(t@, "type"@), t),
            ),
            SocketFrame::Ping | SocketFrame::Pong => r == FromBrowser::Ignore,
            SocketFrame::Close => r == FromBrowser::Stop,
        },
{
    match frame {
        SocketFrame::Binary(b) => FromBrowser::Forward(PipelineInput::Audio(b)),
        SocketFrame::Text(t) => {
            let tag = json_str_member(t.as_str(), "type");
            FromBrowser::Forward(classify_text(&tag, t))
        },
        SocketFrame::Ping => FromBrowser::Ignore,
        SocketFrame::Pong => FromBrowser::Ignore,
        SocketFrame::Close => FromBrowser::Stop,
    }
}

/// The text frame that tells the browser the user interrupted the bot.
pub open spec fn interruption_frame() -> Seq<char> {
    "{\"type\":\"interruption\"}"@
}

/// Relays one message from the pipeline: audio and text go to the browser,
/// an interruption becomes an interruption frame, the voice-detector echoes
/// are dropped, and the end of the pipeline ends the bridge.
pub fn to_browser(out: Option<PipelineOutput>) -> (r: ToBrowser)
    ensures
        match out {
            Some(PipelineOutput::Audio(b)) => r == ToBrowser::Send(SocketFrame::Binary(b)),
            Some(PipelineOutput::Text(t)) => r == ToBrowser::Send(SocketFrame::Text(t)),
            Some(PipelineOutput::Interruption) => r matches ToBrowser::Send(SocketFrame::Text(t))
                && t@ == interruption_frame(),
            Some(PipelineOutput::ClientVadStart) | Some(PipelineOutput::ClientVadStop) => r
                == ToBrowser::Ignore,
            None => r == ToBrowser::Stop,
        },
{
    match out {
        Some(PipelineOutput::Audio(b)) => ToBrowser::Send(SocketFrame::Binary(b)),
        Some(PipelineOutput::Text(t)) => ToBrowser::Send(SocketFrame::Text(t)),
        Some(PipelineOutput::Interruption) => ToBrowser::Send(
            SocketFrame::Text(owned("{\"type\":\"interruption\"}")),
        ),
        Some(PipelineOutput::ClientVadStart) => ToBrowser::Ignore,
        Some(PipelineOutput::ClientVadStop) => ToBrowser::Ignore,
        None => ToBrowser::Stop,
    }
}

} // verus!
