[package]
name = "realtypro"
version = "0.1.0"
edition = "2021"
publish = false

[dependencies]
serde = { version = "1", features = ["derive"] }
serde_json = "1"
dioxus = { version = "0.7", features = ["router", "fullstack"] }
tokio = { version = "1", features = ["rt-multi-thread", "sync", "macros"] }
dotenvy = "0.15"
tracing = "0.1"
wasm-bindgen = "0.2"
wasm-bindgen-futures = "0.4"
js-sys = "0.3"
web-sys = { version = "0.3", features = ["AudioContext", "AudioContextOptions", "AudioBuffer", "AudioBufferSourceNode", "GainNode", "AudioParam", "AudioDestinationNode", "AudioNode", "MediaStream", "MediaStreamTrack", "MediaStreamConstraints", "MediaDevices", "Navigator", "Window", "AudioWorklet", "AudioWorkletNode", "AudioWorkletNodeOptions", "MessagePort", "MessageEvent", "Blob", "BlobPropertyBag", "Url", "MediaStreamAudioSourceNode", "BaseAudioContext"] }
bytes = "1"
