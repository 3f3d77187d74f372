//! Clear-signing of the mail text by an external signer.

use crate::config::Config;
use crate::text::utf8_text;
use vstd::prelude::*;
use vstd::string::*;
use vstd::utf8::{decode_utf8, valid_utf8};

verus! {

/// Why a text could not be signed.
#[derive(Debug, Clone, PartialEq, Eq)]
pub enum SignError {
    /// The signer could not be run, fed or waited for.
    Unavailable(String),
    /// The signer ended with an exit code other than zero; `stderr` is what
    /// it wrote to its error stream, or empty where that is no text.
    ExitCode { code: i32, stderr: String },
    /// The signer ended without an exit code.
    NoExitCode,
    /// What the signer wrote to its output is no text.
    InvalidUtf8,
}

/// A sign error, with its texts as sequences of characters.
pub enum SignErrorView {
    Unavailable(Seq<char>),
    ExitCode { code: i32, stderr: Seq<char> },
    NoExitCode,
    InvalidUtf8,
}

impl View for SignError {
    type V = SignErrorView;

    open spec fn view(&self) -> SignErrorView {
        match self {
            SignError::Unavailable(reason) => SignErrorView::Unavailable(reason@),
            SignError::ExitCode { code, stderr } => SignErrorView::ExitCode {
                code: *code,
                stderr: stderr@,
            },
            SignError::NoExitCode => SignErrorView::NoExitCode,
            SignError::InvalidUtf8 => SignErrorView::InvalidUtf8,
        }
    }
}

/// A signer's answer, with its texts as sequences of characters.
pub open spec fn answer_view(answer: Result<String, SignError>) -> Result<
    Seq<char>,
    SignErrorView,
> {
    match answer {
        Ok(signed) => Ok(signed@),
        Err(error) => Err(error@),
    }
}

/// Wraps a text in a cryptographic signature.
pub trait SignedMessageBuilder: Send + Sync + 'static {
    /// Whether `answer` is an answer that this signer gives when it is asked
    /// to sign `text`. A signer may give one answer now and another later,
    /// and of a signer that says nothing of its answers, every answer is one.
    open spec fn signs(&self, text: Seq<char>, answer: Result<Seq<char>, SignErrorView>) -> bool {
        true
    }

    /// The signed form of `text`.
    fn sign(&self, text: &str) -> (answer: Result<String, SignError>)
        ensures
            self.signs(text@, answer_view(answer)),
    ;
}

/// Signs with the key of the settings, by way of the `gpg` program.
#[derive(Debug, Clone)]
pub struct Sha1SignedMessageBuilder {
    key: String,
}

/// The arguments that make `gpg` clear-sign its input with the key `key`:
/// no interaction and no terminal, armored output on standard output.
pub open spec fn gpg_args(key: Seq<char>) -> Seq<Seq<char>> {
    seq![
        "--batch"@,
        "--no-tty"@,
        "-a"@,
        "-o"@,
        "-"@,
        "--default-key"@,
        key,
        "--clearsign"@,
    ]
}

/// The views of a run of texts.
pub open spec fn text_views(texts: Seq<String>) -> Seq<Seq<char>> {
    texts.map_values(|text: String| text@)
}

/// The text that the bytes of an error stream stand for: what they encode,
/// or nothing where they encode no text.
pub open spec fn diagnostic_text(stderr: Seq<u8>) -> Seq<char> {
    if valid_utf8(stderr) {
        decode_utf8(stderr)
    } else {
        Seq::empty()
    }
}

/// What a run of the signer amounts to: the signed text where it ended with
/// exit code zero and wrote a text, and else the reason why there is none.
pub open spec fn signing_outcome(exit_code: Option<i32>, stdout: Seq<u8>, stderr: Seq<u8>)
    -> Result<Seq<char>, SignErrorView> {
    match exit_code {
        Some(code) => if code == 0 {
            if valid_utf8(stdout) {
                Ok(decode_utf8(stdout))
            } else {
                Err(SignErrorView::InvalidUtf8)
            }
        } else {
            Err(SignErrorView::ExitCode { code, stderr: diagnostic_text(stderr) })
        },
        None => Err(SignErrorView::NoExitCode),
    }
}

impl Sha1SignedMessageBuilder {
    /// A signer that uses the key of the settings.
    pub fn new(config: &Config) -> (builder: Self)
        ensures
            builder.key_view() == config.pgp_key@,
    {
        Sha1SignedMessageBuilder { key: config.pgp_key.clone() }
    }

    /// The identifier of the signing key.
    pub closed spec fn key_view(&self) -> Seq<char> {
        self.key@
    }

    /// The identifier of the signing key.
    pub fn key(&self) -> (key: &String)
        ensures
            key@ == self.key_view(),
    {
        &self.key
    }

    /// The name of the program that signs.
    pub fn program() -> (name: &'static str)
        ensures
            name@ == "gpg"@,
    {
        "gpg"
    }

    /// The arguments to run the signer with.
    pub fn command_args(&self) -> (args: Vec<String>)
        ensures
            text_views(args@) == gpg_args(self.key_view()),
    {
        let mut args: Vec<String> = Vec::new();
        args.push("--batch".to_owned());
        args.push("--no-tty".to_owned());
        args.push("-a".to_owned());
        args.push("-o".to_owned());
        args.push("-".to_owned());
        args.push("--default-key".to_owned());
        args.push(self.key.clone());
        args.push("--clearsign".to_owned());
        assert(text_views(args@) =~= gpg_args(self.key_view()));
        args
    }

    /// Judges a finished run of the signer by its exit code and by what it
    /// wrote to its output and error streams.
    pub fn interpret(exit_code: Option<i32>, stdout: Vec<u8>, stderr: Vec<u8>) -> (result: Result<
        String,
        SignError,
    >)
        ensures
            match signing_outcome(exit_code, stdout@, stderr@) {
                Ok(signed) => result matches Ok(text) && text@ == signed,
                Err(error) => result matches Err(found) && found@ == error,
            },
    {
        match exit_code {
            Some(code) => {
                if code == 0 {
                    match utf8_text(stdout) {
                        Some(text) => Ok(text),
                        None => Err(SignError::InvalidUtf8),
                    }
                } else {
                    let diagnostics = match utf8_text(stderr) {
                        Some(text) => text,
                        None => String::new(),
                    };
                    Err(SignError::ExitCode { code, stderr: diagnostics })
                }
            },
            None => Err(SignError::NoExitCode),
        }
    }
}

} // verus!
