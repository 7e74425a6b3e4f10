//! Speech-to-text backends: the local model's file layout and readiness,
//! the cloud backend's request rules and error-message shaping, and how a
//! model load is reported.

use vstd::prelude::*;
use vstd::utf8::decode_utf8;
use vstd::utf8::encode_utf8;
use vstd::utf8::is_char_boundary;

use crate::chars::{chars_of, strip_class, string_of, trim_whitespace, CharClass};
use crate::config::{join_path, path_join};

verus! {

broadcast use vstd::string::group_string_axioms;

/// The files of the local transducer model, under `root`.
#[derive(Clone, Debug)]
pub struct ModelPaths {
    pub root: String,
}

/// What the filesystem reports about one model file.
#[derive(Clone, Copy, Debug, PartialEq, Eq)]
pub struct FileStat {
    /// The path exists.
    pub exists: bool,
    /// Its size in bytes (0 when it cannot be read).
    pub size: u64,
}

/// What the filesystem reports about the four model files.
#[derive(Clone, Copy, Debug, PartialEq, Eq)]
pub struct ModelFiles {
    pub encoder: FileStat,
    pub decoder: FileStat,
    pub joiner: FileStat,
    pub tokens: FileStat,
}

/// The model is usable: all four files exist and the three networks have
/// at least their expected sizes (encoder over 500 MB, decoder over 5 MB,
/// joiner over 1 MB).
pub open spec fn model_complete(f: ModelFiles) -> bool {
    f.encoder.exists && f.decoder.exists && f.joiner.exists && f.tokens.exists && f.encoder.size
        > 500_000_000 && f.decoder.size > 5_000_000 && f.joiner.size > 1_000_000
}

impl ModelPaths {
    pub fn new(root: String) -> (r: Self)
        ensures
            r.root@ == root@,
    {
        ModelPaths { root }
    }

    pub fn encoder(&self) -> (r: String)
        ensures
            r@ == path_join(self.root@, "encoder.int8.onnx"@),
    {
        join_path(self.root.as_str(), "encoder.int8.onnx")
    }

    pub fn decoder(&self) -> (r: String)
        ensures
            r@ == path_join(self.root@, "decoder.int8.onnx"@),
    {
        join_path(self.root.as_str(), "decoder.int8.onnx")
    }

    pub fn joiner(&self) -> (r: String)
        ensures
            r@ == path_join(self.root@, "joiner.int8.onnx"@),
    {
        join_path(self.root.as_str(), "joiner.int8.onnx")
    }

    pub fn tokens(&self) -> (r: String)
        ensures
            r@ == path_join(self.root@, "tokens.txt"@),
    {
        join_path(self.root.as_str(), "tokens.txt")
    }

    /// The bundled self-test clip, `test_wavs/0.wav` under the root.
    pub fn self_test_wav(&self) -> (r: String)
        ensures
            r@ == path_join(path_join(self.root@, "test_wavs"@), "0.wav"@),
    {
        let dir = join_path(self.root.as_str(), "test_wavs");
        join_path(dir.as_str(), "0.wav")
    }

    /// Whether the model whose files `files` describes (the encoder, decoder,
    /// joiner and tokens of these paths) is complete.
    pub fn is_complete(&self, files: &ModelFiles) -> (r: bool)
        ensures
            r == model_complete(*files),
    {
        files.encoder.exists && files.decoder.exists && files.joiner.exists && files.tokens.exists
            && files.encoder.size > 500_000_000 && files.decoder.size > 5_000_000
            && files.joiner.size > 1_000_000
    }
}

/// The text of `s` cut to its first `n` bytes, with "…" appended when it was longer.
pub open spec fn truncated(s: Seq<char>, n: int) -> Seq<char> {
    if encode_utf8(s).len() <= n {
        s
    } else {
        decode_utf8(encode_utf8(s).take(n)) + seq!['\u{2026}']
    }
}

/// Cuts `s` to its first `n` bytes for an error message, marking the cut
/// with "…". The cut must fall between characters.
pub fn truncate(s: &str, n: usize) -> (r: String)
    requires
        encode_utf8(s@).len() <= n || is_char_boundary(encode_utf8(s@), n as int),
    ensures
        r@ == truncated(s@, n as int),
{
    if s.as_bytes().len() <= n {
        String::from_str(s)
    } else {
        let (head, _) = s.split_at(n);
        proof {
            vstd::utf8::encode_utf8_decode_utf8(head@);
            assert(encode_utf8(s@).subrange(0, n as int) =~= encode_utf8(s@).take(n as int));
        }
        let mut out = String::from_str(head);
        crate::chars::push_char(&mut out, '\u{2026}');
        out
    }
}

/// An API key that is empty or only white space cannot be used.
pub fn api_key_is_blank(api_key: &str) -> (r: bool)
    ensures
        r == (trim_whitespace(api_key@).len() == 0),
{
    let cs = chars_of(api_key);
    let t = strip_class(&cs, CharClass::Space);
    t.len() == 0
}

/// The language to send with a transcription request: only a non-blank one.
pub fn request_language(language: Option<String>) -> (r: Option<String>)
    ensures
        r == match language {
            Some(l) => if trim_whitespace(l@).len() > 0 {
                Some(l)
            } else {
                None
            },
            None => None,
        },
{
    match language {
        Some(l) => {
            if api_key_is_blank(l.as_str()) {
                None
            } else {
                Some(l)
            }
        },
        None => None,
    }
}

/// A recognised transcript without surrounding white space.
pub fn trim_transcript(raw: &str) -> (r: String)
    ensures
        r@ == trim_whitespace(raw@),
{
    let cs = chars_of(raw);
    let t = strip_class(&cs, CharClass::Space);
    string_of(&t)
}

/// What running the bundled self-test clip through a freshly loaded model gave.
#[derive(Clone, Debug)]
pub enum SelfTest {
    /// There is no bundled clip.
    NoClip,
    /// The model transcribed the clip to this text.
    Transcript(String),
    /// Reading or transcribing the clip failed with this message.
    Failed(String),
}

/// The content of a self-test outcome.
pub enum SelfTestView {
    NoClip,
    Transcript(Seq<char>),
    Failed(Seq<char>),
}

impl View for SelfTest {
    type V = SelfTestView;

    open spec fn view(&self) -> SelfTestView {
        match self {
            SelfTest::NoClip => SelfTestView::NoClip,
            SelfTest::Transcript(text) => SelfTestView::Transcript(text@),
            SelfTest::Failed(e) => SelfTestView::Failed(e@),
        }
    }
}

/// The log line that reports a successful model load.
pub open spec fn load_report(t: SelfTestView) -> Seq<char> {
    match t {
        SelfTestView::NoClip => "Parakeet model loaded"@,
        SelfTestView::Transcript(text) => if text.len() == 0 {
            "Parakeet loaded, but bundled test audio produced no transcript"@
        } else {
            "Parakeet model loaded"@
        },
        SelfTestView::Failed(e) => "Parakeet loaded, but model self-test failed: "@ + e,
    }
}

/// Reports a model load from its self-test outcome.
pub fn model_load_report(t: &SelfTest) -> (r: String)
    ensures
        r@ == load_report(t@),
{
    match t {
        SelfTest::NoClip => String::from_str("Parakeet model loaded"),
        SelfTest::Transcript(text) => {
            if text.as_str().is_empty() {
                String::from_str("Parakeet loaded, but bundled test audio produced no transcript")
            } else {
                String::from_str("Parakeet model loaded")
            }
        },
        SelfTest::Failed(e) => {
            let mut out = String::from_str("Parakeet loaded, but model self-test failed: ");
            out.append(e.as_str());
            out
        },
    }
}

} // verus!
