[package]
name = "pixel_canvas"
version = "0.1.0"
edition = "2021"
publish = false

[dependencies]
console_error_panic_hook = "0.1"
wasm-bindgen = "0.2"
web-sys = { version = "0.3", features = ["CanvasRenderingContext2d", "CssStyleDeclaration", "Document", "DomRect", "DomTokenList", "Element", "Event", "EventTarget", "HtmlCanvasElement", "HtmlCollection", "HtmlElement", "HtmlInputElement", "ImageData", "InputEvent", "MouseEvent", "Node", "UiEvent", "Window"] }
