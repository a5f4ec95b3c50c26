//! The transcription endpoints: search, browse, show.
use vstd::prelude::*;
use crate::error::{Error, ErrorKind};
use crate::runtime::verr;
use crate::text::cat3;

pub mod browse;
pub mod search;
pub mod show;

verus! {

/// The languages the transcription endpoints serve.
pub open spec fn transcript_lang_ok(l: Seq<char>) -> bool {
    l == "nl"@ || l == "en"@ || l == "de"@ || l == "fr"@
}

/// `--lang: unsupported language '{lang}', supported: nl, en, de, fr`.
pub open spec fn unsupported_lang_message(lang: Seq<char>) -> Seq<char> {
    "--lang: unsupported language '"@ + lang + "', supported: nl, en, de, fr"@
}

pub fn unsupported_lang_error(lang: &str) -> (r: Error)
    ensures
        r@ == verr(unsupported_lang_message(lang@)),
{
    let m = cat3("--lang: unsupported language '", lang, "', supported: nl, en, de, fr");
    Error::new(ErrorKind::Validation, m.as_str())
}

} // verus!
